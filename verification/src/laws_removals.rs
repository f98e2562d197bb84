//! Laws of removal: shares given up, shares removed, accounts removed.

use vstd::prelude::*;
use crate::admin::{index_owner, removal_from_all};
use crate::api::{answer_next, Request};
use crate::deletion::{prefix_deletion, OutcomeView};
use crate::devices::sessions_key;
use crate::gate::{admin, caller, Headers, Site};
use crate::json::{json_list_parsed, json_printed, text_member, JsonTree};
use crate::keys::share_prefix;
use crate::laws_clearing::{
    clearing_comes_to_its_end, clearing_ends, lemma_filter_none, lemma_filter_skip,
};
use crate::laws_scope::{lemma_begins, lemma_deletion_never_done};
use crate::profile::{account_removal, indexed_shares, remove_shares};
use crate::protocol::{ActionView, AnswerView, FlowView, NextView, ObjectReply, Reply};
use crate::shares::{index_key, index_removal, is_share, share_ids};
use crate::sharing::{owner_heard, recorded_owner};
use crate::storage::S3ListedObject;
use crate::text::trimmed;

verus! {

// ---------------------------------------------------------------------------
// Indices
// ---------------------------------------------------------------------------

/// Taking a share out of the index of a user reads the index, and stores it with the entries that
/// do not name the share, all of them, in order. An index that cannot be read is left, and so is
/// that of no one.
pub proof fn shares_are_taken_out_of_indices(
    username: Seq<char>,
    uuid: Seq<char>,
    heard: Seq<Reply>,
    at: int,
)
    requires
        0 <= at,
    ensures
        ({
            let key = "users/"@ + username + "/public_shares.json"@;
            let r = index_removal(username, uuid, heard, at);
            if username.len() == 0 {
                r == FlowView::Go((), at)
            } else if heard.len() <= at {
                r == FlowView::<()>::Stop(
                    NextView::Perform(ActionView::Get { key }),
                )
            } else {
                match heard[at] {
                    Reply::Object(ObjectReply::Bytes(b)) => match
                        json_list_parsed(b@) {
                        Some(entries) => if heard.len() == at + 1 {
                            r == FlowView::<()>::Stop(
                                NextView::Perform(
                                    ActionView::Put {
                                        key,
                                        content_type: "application/json"@,
                                        body: json_printed(
                                            JsonTree::Array(
                                                entries.filter(
                                                    |t: JsonTree|
                                                        text_member(t, "uuid"@)
                                                            != Some(uuid),
                                                ),
                                            ),
                                        ),
                                    },
                                ),
                            )
                        } else {
                            heard[at + 1] is Done || heard[at + 1] is Failed ==> r == FlowView::Go(
                                (),
                                at + 2,
                            )
                        },
                        None => r == FlowView::Go((), at + 1),
                    },
                    Reply::Object(_) => r == FlowView::Go((), at + 1),
                    _ => true,
                }
            }
        }),
{
    lemma_index_key(username);
    let p = |t: JsonTree| text_member(t, "uuid"@) != Some(uuid);
    let q = |t: JsonTree| !is_share(t, uuid);
    assert(p =~= q);
}

/// Where the index of a user is.
pub proof fn lemma_index_key(username: Seq<char>)
    ensures
        index_key(username) == "users/"@ + username + "/public_shares.json"@,
        sessions_key(username) == "users/"@ + username + "/sessions.json"@,
{
    reveal_strlit("/");
    reveal_strlit("public_shares.json");
    reveal_strlit("/public_shares.json");
    reveal_strlit("sessions.json");
    reveal_strlit("/sessions.json");
    assert("/public_shares.json"@ =~= "/"@ + "public_shares.json"@);
    assert("/sessions.json"@ =~= "/"@ + "sessions.json"@);
    assert(index_key(username) =~= "users/"@ + username + "/public_shares.json"@);
    assert(sessions_key(username) =~= "users/"@ + username + "/sessions.json"@);
}

// ---------------------------------------------------------------------------
// Shares
// ---------------------------------------------------------------------------

/// Giving a share up clears everything stored for it, and is answered `aborted` exactly where the
/// clearing came to a good end; where it failed, the client is told why.
pub proof fn shares_given_up_are_cleared(
    site: Site,
    headers: Headers,
    uuid: String,
    heard: Seq<Reply>,
    end: int,
)
    requires
        caller(site, headers, heard) is Go,
    ensures
        ({
            let n = answer_next(
                site,
                headers,
                (Request::UploadAbort { uuid }),
                heard,
            );
            let clearing = prefix_deletion(
                "uploads/"@ + uuid@ + "/"@,
                heard,
                1,
            );
            &&& clearing matches FlowView::Stop(m) ==> n == m
            &&& clearing matches FlowView::Go(OutcomeView::Failed(message), _)
                ==> n == NextView::Done(
                AnswerView::Refused { status: 500, message },
            )
            &&& clearing_ends(heard, 1, end) ==> n == NextView::Done(
                AnswerView::Status { status: "aborted"@ },
            )
            &&& n matches NextView::Done(a) ==> a is Refused || (a == (AnswerView::Status {
                status: "aborted"@,
            }) && exists|e: int| clearing_ends(heard, 1, e))
        }),
{
    let prefix = share_prefix(uuid@);
    clearing_comes_to_its_end(prefix, heard, 1, end);
    lemma_deletion_never_done(prefix, heard, 1);
    if let FlowView::Go(OutcomeView::Done, e) = prefix_deletion(prefix, heard, 1) {
        clearing_comes_to_its_end(prefix, heard, 1, e);
    }
}

/// A user removes a share that is theirs: the record of its owner is read, everything stored for it
/// is cleared, and it is taken out of their index. Then, and only then, it is said to be deleted.
/// A share of someone else, or of no one, is left.
pub proof fn owners_remove_their_shares(
    site: Site,
    headers: Headers,
    uuid: String,
    heard: Seq<Reply>,
    end: int,
)
    requires
        caller(site, headers, heard) is Go,
    ensures
        ({
            let c = caller(site, headers, heard)->Go_0;
            let n = answer_next(site, headers, (Request::DeleteShare { uuid }), heard);
            let clearing = prefix_deletion("uploads/"@ + uuid@ + "/"@, heard, 2);
            if heard.len() <= 1 {
                n == NextView::Perform(
                    ActionView::Get { key: "uploads/"@ + uuid@ + "/"@ + "owner.txt"@ },
                )
            } else {
                match heard[1] {
                    Reply::Object(ObjectReply::Absent) => n == NextView::Done(
                        AnswerView::Refused {
                            status: 403,
                            message: "Cannot verify ownership"@,
                        },
                    ),
                    Reply::Object(ObjectReply::BodyFailed(_)) => n == NextView::Done(
                        AnswerView::Refused {
                            status: 403,
                            message: "Share has no valid owner recorded"@,
                        },
                    ),
                    Reply::Object(ObjectReply::Bytes(b)) => if recorded_owner(b@)
                        != c.username {
                        n == NextView::Done(
                            AnswerView::Refused {
                                status: 403,
                                message: "You do not own this share"@,
                            },
                        )
                    } else {
                        &&& clearing matches FlowView::Stop(m) ==> n == m
                        &&& clearing matches FlowView::Go(OutcomeView::Failed(message), _) ==> n
                            == NextView::Done(AnswerView::Refused { status: 500, message })
                        &&& clearing_ends(heard, 2, end) ==> match index_removal(
                            c.username,
                            uuid@,
                            heard,
                            end,
                        ) {
                            FlowView::Stop(m) => n == m,
                            FlowView::Go(_, _) => n == NextView::Done(
                                AnswerView::Status { status: "deleted"@ },
                            ),
                        }
                        &&& n matches NextView::Done(a) ==> a is Refused || exists|e: int|
                            clearing_ends(heard, 2, e) && index_removal(
                                c.username,
                                uuid@,
                                heard,
                                e,
                            ) is Go
                    },
                    _ => true,
                }
            }
        }),
{
    let c = caller(site, headers, heard)->Go_0;
    let prefix = share_prefix(uuid@);
    clearing_comes_to_its_end(prefix, heard, 2, end);
    lemma_deletion_never_done(prefix, heard, 2);
    if let FlowView::Go(OutcomeView::Done, e) = prefix_deletion(prefix, heard, 2) {
        clearing_comes_to_its_end(prefix, heard, 2, e);
    }
}

/// Whether the replies from `at` to `end` are those of taking a share out of the index of a user.
pub open spec fn index_is_pruned(
    owner: Seq<char>,
    uuid: Seq<char>,
    heard: Seq<Reply>,
    at: int,
    end: int,
) -> bool {
    index_removal(owner, uuid, heard, at) == FlowView::Go((), end)
}

/// Whether a share was taken out of the indices of the first of some users in turn, each from one
/// of the given places to the next.
pub open spec fn indices_are_pruned(
    owners: Seq<Seq<char>>,
    uuid: Seq<char>,
    heard: Seq<Reply>,
    ends: Seq<int>,
) -> bool {
    &&& 0 < ends.len() <= owners.len() + 1
    &&& forall|i: int|
        0 <= i < ends.len() - 1 ==> #[trigger] index_is_pruned(
            owners[i],
            uuid,
            heard,
            ends[i],
            ends[i + 1],
        )
}

/// The users whose indices some objects are: those with a key `users/<name>/public_shares.json`.
pub open spec fn index_owners(objects: Seq<S3ListedObject>) -> Seq<Seq<char>> {
    objects.filter(
        |o: S3ListedObject| o.key matches Some(k) && index_owner(k@) is Some,
    ).map_values(|o: S3ListedObject| index_owner(o.key->0@)->0)
}

/// The name in the key of an index.
pub proof fn indices_name_their_owners(key: Seq<char>, name: Seq<char>)
    ensures
        (index_owner(key) == Some(name)) == (key == "users/"@ + name + "/public_shares.json"@),
{
    let start = "users/"@;
    let end = "/public_shares.json"@;
    if index_owner(key) == Some(name) {
        assert(key =~= start + name + end);
    }
    if key == start + name + end {
        assert(key =~= start + (name + end));
        lemma_begins(start, name + end);
        assert(key.skip(start.len() as int) =~= name + end);
        assert((name + end).skip(name.len() as int) =~= end);
        assert((name + end).take(name.len() as int) =~= name);
    }
}

/// From the object `i` and the index `j` on, the indices are looked through in turn.
proof fn lemma_removal_from_all(
    objects: Seq<S3ListedObject>,
    i: int,
    j: int,
    uuid: Seq<char>,
    heard: Seq<Reply>,
    ends: Seq<int>,
)
    requires
        0 <= i <= objects.len(),
        indices_are_pruned(index_owners(objects), uuid, heard, ends),
        0 <= j < ends.len(),
        index_owners(objects.skip(i)) == index_owners(objects).skip(j),
    ensures
        ({
            let owners = index_owners(objects);
            let k = ends.len() - 1;
            let r = removal_from_all(objects, i, uuid, heard, ends[j]);
            &&& k == owners.len() ==> r == FlowView::Go((), ends[k])
            &&& k < owners.len() ==> (index_removal(
                owners[k],
                uuid,
                heard,
                ends[k],
            ) matches FlowView::Stop(n) ==> r == FlowView::<()>::Stop(n))
        }),
    decreases objects.len() - i,
{
    let p = |o: S3ListedObject| o.key matches Some(k) && index_owner(k@) is Some;
    let f = |o: S3ListedObject| index_owner(o.key->0@)->0;
    let owners = index_owners(objects);
    if i < objects.len() {
        lemma_filter_skip(objects, i, p);
        let more = index_owners(objects.skip(i + 1));
        if p(objects[i]) {
            assert(index_owners(objects.skip(i)) =~= seq![f(objects[i])] + more);
            assert(owners.skip(j)[0] == owners[j]);
            assert(more =~= owners.skip(j + 1)) by {
                assert forall|x: int| 0 <= x < more.len() implies more[x] == owners.skip(
                    j + 1,
                )[x] by {
                    assert(owners.skip(j)[x + 1] == more[x]);
                }
            }
            if j + 1 < ends.len() {
                assert(index_is_pruned(owners[j], uuid, heard, ends[j], ends[j + 1]));
                lemma_removal_from_all(objects, i + 1, j + 1, uuid, heard, ends);
            }
        } else {
            lemma_removal_from_all(objects, i + 1, j, uuid, heard, ends);
        }
    } else {
        lemma_filter_none(objects.skip(i), p);
        assert(owners.skip(j).len() == 0);
    }
}

/// The administrator removes any share: the record of its owner is read, everything stored for it
/// is cleared, and it is taken out of the index of its owner. Where no owner is known, the users
/// are listed, and it is taken out of every index that the list names.
pub proof fn the_administrator_removes_any_share(
    site: Site,
    headers: Headers,
    uuid: String,
    heard: Seq<Reply>,
    at: int,
    end: int,
    ends: Seq<int>,
)
    requires
        admin(site, headers, heard) == FlowView::Go((), at),
        0 <= at,
    ensures
        ({
            let n = answer_next(site, headers, (Request::AdminDeleteShare { uuid }), heard);
            let clearing = prefix_deletion("uploads/"@ + uuid@ + "/"@, heard, at + 1);
            if heard.len() <= at {
                n == NextView::Perform(
                    ActionView::Get { key: "uploads/"@ + uuid@ + "/"@ + "owner.txt"@ },
                )
            } else {
                heard[at] matches Reply::Object(reply) ==> {
                    let owner = owner_heard(reply);
                    &&& clearing matches FlowView::Stop(m) ==> n == m
                    &&& clearing matches FlowView::Go(OutcomeView::Failed(message), _) ==> n
                        == NextView::Done(AnswerView::Refused { status: 500, message })
                    &&& clearing_ends(heard, at + 1, end) && owner.len() > 0 ==> match
                        index_removal(owner, uuid@, heard, end) {
                        FlowView::Stop(m) => n == m,
                        FlowView::Go(_, _) => n == NextView::Done(AnswerView::Success),
                    }
                    &&& clearing_ends(heard, at + 1, end) && owner.len() == 0 ==> if heard.len()
                        <= end {
                        n == NextView::Perform(ActionView::ListPage { prefix: "users/"@ })
                    } else {
                        match heard[end] {
                            Reply::Failed(_) => n == NextView::Done(AnswerView::Success),
                            Reply::Objects(objects) => {
                                let owners = index_owners(objects@);
                                let k = ends.len() - 1;
                                indices_are_pruned(owners, uuid@, heard, ends) && ends[0] == end + 1
                                    ==> {
                                    &&& k == owners.len() ==> n == NextView::Done(
                                        AnswerView::Success,
                                    )
                                    &&& k < owners.len() ==> (index_removal(
                                        owners[k],
                                        uuid@,
                                        heard,
                                        ends[k],
                                    ) matches FlowView::Stop(m) ==> n == m)
                                }
                            },
                            _ => true,
                        }
                    }
                }
            }
        }),
{
    let prefix = share_prefix(uuid@);
    clearing_comes_to_its_end(prefix, heard, at + 1, end);
    if clearing_ends(heard, at + 1, end) && end < heard.len() {
        if let Reply::Objects(objects) = heard[end] {
            if indices_are_pruned(index_owners(objects@), uuid@, heard, ends) && ends[0] == end
                + 1 {
                assert(objects@.skip(0) =~= objects@);
                assert(index_owners(objects@).skip(0) =~= index_owners(objects@));
                lemma_removal_from_all(objects@, 0, 0, uuid@, heard, ends);
            }
        }
    }
}

// ---------------------------------------------------------------------------
// Accounts
// ---------------------------------------------------------------------------

/// The ids of the shares that an index lists: those of its entries that have one, in order.
pub open spec fn shares_listed(reply: ObjectReply) -> Seq<Seq<char>> {
    match reply {
        ObjectReply::Bytes(b) => match json_list_parsed(b@) {
            Some(entries) => entries.filter(
                |t: JsonTree| text_member(t, "uuid"@) is Some,
            ).map_values(|t: JsonTree| text_member(t, "uuid"@)->0),
            None => Seq::empty(),
        },
        _ => Seq::empty(),
    }
}

/// The ids of some entries.
pub proof fn lemma_share_ids(entries: Seq<JsonTree>)
    ensures
        share_ids(entries) == entries.filter(
            |t: JsonTree| text_member(t, "uuid"@) is Some,
        ).map_values(|t: JsonTree| text_member(t, "uuid"@)->0),
    decreases entries.len(),
{
    reveal(Seq::filter);
    let p = |t: JsonTree| text_member(t, "uuid"@) is Some;
    let f = |t: JsonTree| text_member(t, "uuid"@)->0;
    if entries.len() > 0 {
        lemma_share_ids(entries.drop_last());
        let before = entries.drop_last().filter(p);
        if p(entries.last()) {
            assert(before.push(entries.last()).map_values(f) =~= before.map_values(f).push(
                f(entries.last()),
            ));
        }
    }
    assert(share_ids(entries) =~= entries.filter(p).map_values(f));
}

/// Whether the replies from `at` to `end` are those of clearing a share, well or badly.
pub open spec fn share_is_cleared(uuid: Seq<char>, heard: Seq<Reply>, at: int, end: int) -> bool {
    prefix_deletion("uploads/"@ + uuid + "/"@, heard, at) matches FlowView::Go(_, e) && e == end
}

/// Whether the shares with the first of some ids were cleared in turn, well or badly, each from
/// one of the given places to the next.
pub open spec fn shares_are_cleared(
    ids: Seq<Seq<char>>,
    heard: Seq<Reply>,
    ends: Seq<int>,
) -> bool {
    &&& 0 < ends.len() <= ids.len() + 1
    &&& forall|i: int|
        0 <= i < ends.len() - 1 ==> #[trigger] share_is_cleared(
            ids[i],
            heard,
            ends[i],
            ends[i + 1],
        )
}

/// From the id `i` on, the shares are cleared in turn.
proof fn lemma_remove_shares(
    ids: Seq<Seq<char>>,
    i: int,
    heard: Seq<Reply>,
    ends: Seq<int>,
)
    requires
        shares_are_cleared(ids, heard, ends),
        0 <= i < ends.len(),
    ensures
        ({
            let k = ends.len() - 1;
            let r = remove_shares(ids, i, heard, ends[i]);
            &&& k == ids.len() ==> r == FlowView::Go((), ends[k])
            &&& k < ids.len() ==> (prefix_deletion(
                "uploads/"@ + ids[k] + "/"@,
                heard,
                ends[k],
            ) matches FlowView::Stop(n) ==> r == FlowView::<()>::Stop(n))
        }),
    decreases ends.len() - i,
{
    if i < ends.len() - 1 {
        assert(share_is_cleared(ids[i], heard, ends[i], ends[i + 1]));
        lemma_remove_shares(ids, i + 1, heard, ends);
    }
}

/// Removing an account reads the index of the user, clears every share that it lists, removes the
/// record, and clears everything else that is stored for the user; then it is done, whatever of
/// this failed.
pub proof fn accounts_are_removed_with_their_shares(
    username: Seq<char>,
    heard: Seq<Reply>,
    at: int,
    reply: ObjectReply,
    ends: Seq<int>,
)
    requires
        0 <= at,
    ensures
        heard.len() <= at ==> account_removal(username, heard, at)
            == NextView::Perform(
            ActionView::Get { key: "users/"@ + username + "/public_shares.json"@ },
        ),
        at < heard.len() && heard[at] == Reply::Object(reply) && ends.len() > 0 && ends[0] == at + 1
            && shares_are_cleared(shares_listed(reply), heard, ends) ==> {
            let ids = shares_listed(reply);
            let k = ends.len() - 1;
            let n = account_removal(username, heard, at);
            if k < ids.len() {
                prefix_deletion(
                    "uploads/"@ + ids[k] + "/"@,
                    heard,
                    ends[k],
                ) matches FlowView::Stop(m) ==> n == m
            } else if heard.len() <= ends[k] {
                n == NextView::Perform(
                    ActionView::Delete { key: "users/"@ + username + ".json"@ },
                )
            } else {
                heard[ends[k]] is Done || heard[ends[k]] is Failed ==> match prefix_deletion(
                    "users/"@ + username + "/"@,
                    heard,
                    ends[k] + 1,
                ) {
                    FlowView::Stop(m) => n == m,
                    FlowView::Go(_, _) => n == NextView::Done(AnswerView::Success),
                }
            }
        },
{
    lemma_index_key(username);
    if at < heard.len() && heard[at] == Reply::Object(reply) && ends.len() > 0 && ends[0] == at + 1
        && shares_are_cleared(shares_listed(reply), heard, ends) {
        if let ObjectReply::Bytes(b) = reply {
            if let Some(entries) = json_list_parsed(b@) {
                lemma_share_ids(entries);
            }
        }
        assert(indexed_shares(reply) == shares_listed(reply));
        lemma_remove_shares(shares_listed(reply), 0, heard, ends);
    }
}

/// A user removes their own account; the administrator removes that of anyone, by the name without
/// white space at its ends, and is refused where there is no name.
pub proof fn accounts_are_removed_by_name(
    site: Site,
    headers: Headers,
    username: String,
    heard: Seq<Reply>,
)
    ensures
        caller(site, headers, heard) matches FlowView::Go(c, _) ==> answer_next(
            site,
            headers,
            Request::DeleteAccount,
            heard,
        ) == account_removal(c.username, heard, 1),
        admin(site, headers, heard) matches FlowView::Go(_, at) ==> answer_next(
            site,
            headers,
            (Request::AdminDeleteUser { username }),
            heard,
        ) == (if trimmed(username@).len() == 0 {
            NextView::Done(
                AnswerView::Refused { status: 400, message: "Username is empty"@ },
            )
        } else {
            account_removal(trimmed(username@), heard, at)
        }),
{
}

} // verus!
