//! Laws of the administrator's overview, of the start of the server, and of the frontend.

use vstd::prelude::*;
use vstd::utf8::encode_utf8;
use crate::admin::{account_names, record_owner_name, user_stats};
use crate::api::{answer_next, Request};
use crate::gate::{admin, Headers, Site};
use crate::json::JsonTree;
use crate::laws_removals::lemma_index_key;
use crate::laws_scope::lemma_begins;
use crate::laws_uploads::{lemma_sums_fit, sum, sums_fit};
use crate::number::{decimal, is_digit, lemma_nat_text};
use crate::protocol::{
    ActionView, AnswerView, FlowView, NextView, ObjectReply, Reply, UserStatsView,
};
use crate::setup::{load_secret_next, port};
use crate::shares::{entry_size, index_entries, index_key, sizes_total};
use crate::storage::S3ListedObject;

verus! {

// ---------------------------------------------------------------------------
// The overview
// ---------------------------------------------------------------------------

/// The user whose record has a key, where it is one: the key is `users/<name>.json`, and the name
/// holds no `/`.
pub proof fn records_name_their_users(key: Seq<char>, name: Seq<char>)
    ensures
        (record_owner_name(key) == Some(name)) == (key == "users/"@ + name + ".json"@
            && !name.contains('/')),
{
    let start = "users/"@;
    let end = ".json"@;
    reveal_strlit("users/");
    reveal_strlit(".json");
    if key == start + name + end {
        assert(key =~= start + (name + end));
        lemma_begins(start, name + end);
        let rest = key.skip(start.len() as int);
        assert(rest =~= name + end);
        assert(key.skip(key.len() - end.len()) =~= end);
        assert(rest.skip(rest.len() - end.len()) =~= end);
        assert(rest.take(rest.len() - end.len()) =~= name);
        if rest.contains('/') {
            let i = choose|i: int| 0 <= i < rest.len() && rest[i] == '/';
            if i < name.len() {
                assert(name[i] == '/');
            } else {
                assert(end[i - name.len()] == '/');
            }
        } else if name.contains('/') {
            let i = choose|i: int| 0 <= i < name.len() && name[i] == '/';
            assert(rest[i] == '/');
        }
    }
    if record_owner_name(key) == Some(name) {
        let rest = key.skip(start.len() as int);
        assert(key =~= start + rest);
        let tail = key.skip(key.len() - end.len());
        assert(tail == end);
        if rest.len() >= end.len() {
            assert(rest.skip(rest.len() - end.len()) =~= tail);
            assert(rest =~= name + end);
            assert(key =~= start + name + end);
            if name.contains('/') {
                let i = choose|i: int| 0 <= i < name.len() && name[i] == '/';
                assert(rest[i] == '/');
            }
        } else {
            assert(key[5] == '/');
            assert(tail[5 - (key.len() - end.len())] == '/');
        }
    }
}

/// The names of the users whose records are listed, in order.
pub open spec fn users_listed(objects: Seq<S3ListedObject>) -> Seq<Seq<char>> {
    objects.filter(
        |o: S3ListedObject| o.key matches Some(k) && record_owner_name(k@) is Some,
    ).map_values(|o: S3ListedObject| record_owner_name(o.key->0@)->0)
}

/// The names are those of the listed records.
proof fn lemma_users_listed(objects: Seq<S3ListedObject>)
    ensures
        account_names(objects) == users_listed(objects),
    decreases objects.len(),
{
    reveal(Seq::filter);
    let p = |o: S3ListedObject| o.key matches Some(k) && record_owner_name(k@) is Some;
    let f = |o: S3ListedObject| record_owner_name(o.key->0@)->0;
    if objects.len() > 0 {
        lemma_users_listed(objects.drop_last());
        let before = objects.drop_last().filter(p);
        if p(objects.last()) {
            assert(before.push(objects.last()).map_values(f) =~= before.map_values(f).push(
                f(objects.last()),
            ));
        }
    }
    assert(account_names(objects) =~= objects.filter(p).map_values(f));
}

/// The size of the shares that an index lists is the sum of the sizes that its entries name, as far
/// as the machine can count.
pub proof fn indices_sum_up_their_entries(entries: Seq<JsonTree>)
    ensures
        ({
            let sizes = entries.map_values(|t: JsonTree| entry_size(t));
            sizes_total(entries) == if sums_fit(sizes) {
                Some(sum(sizes))
            } else {
                None
            }
        }),
    decreases entries.len(),
{
    let size = |t: JsonTree| entry_size(t);
    let sizes = entries.map_values(size);
    lemma_sums_fit(sizes);
    if entries.len() > 0 {
        indices_sum_up_their_entries(entries.drop_last());
        assert(entries.drop_last().map_values(size) =~= sizes.drop_last());
    }
}

/// Whether each of some users is shown with their shares and the size of them, as the replies to
/// their indices say, from the place `at` on.
pub open spec fn shows_users(
    users: Seq<UserStatsView>,
    names: Seq<Seq<char>>,
    heard: Seq<Reply>,
    at: int,
) -> bool {
    &&& users.len() == names.len()
    &&& forall|i: int|
        0 <= i < names.len() ==> (heard[at + i] matches Reply::Object(reply) && {
            &&& (#[trigger] users[i]).username == names[i]
            &&& users[i].shares == index_entries(reply)
            &&& users[i].total_size == sum(
                index_entries(reply).map_values(|t: JsonTree| entry_size(t)),
            )
        })
}

/// From the user `i` on, the users are gone through one by one.
proof fn lemma_overview(
    names: Seq<Seq<char>>,
    i: int,
    said: Seq<UserStatsView>,
    heard: Seq<Reply>,
    at: int,
)
    requires
        0 <= i <= names.len(),
        0 <= at,
        shows_users(said, names.take(i), heard, at),
        forall|j: int|
            0 <= j < names.len() && at + j < heard.len() ==> (#[trigger] heard[at + j] matches
                Reply::Object(reply) && sizes_total(index_entries(reply)) is Some),
        at + i <= heard.len(),
    ensures
        ({
            let n = user_stats(names, i, said, heard, at + i);
            if at + names.len() <= heard.len() {
                n matches NextView::Done(
                    AnswerView::Stats { users },
                ) && shows_users(users, names, heard, at)
            } else {
                n == NextView::Perform(
                    ActionView::Get {
                        key: index_key(names[heard.len() - at]),
                    },
                )
            }
        }),
    decreases names.len() - i,
{
    if i < names.len() {
        if at + i < heard.len() {
            assert(heard[at + i] matches Reply::Object(reply) && sizes_total(
                index_entries(reply),
            ) is Some);
            let reply = heard[at + i]->Object_0;
            let entries = index_entries(reply);
            indices_sum_up_their_entries(entries);
            let more = said.push(
                UserStatsView {
                    username: names[i],
                    total_size: sizes_total(entries)->0,
                    shares: entries,
                },
            );
            assert(shows_users(more, names.take(i + 1), heard, at)) by {
                assert forall|j: int| 0 <= j < i + 1 implies (heard[at + j] matches Reply::Object(
                    reply,
                ) && {
                    &&& (#[trigger] more[j]).username == names.take(i + 1)[j]
                    &&& more[j].shares == index_entries(reply)
                    &&& more[j].total_size == sum(
                        index_entries(reply).map_values(|t: JsonTree| entry_size(t)),
                    )
                }) by {
                    if j < i {
                        assert(more[j] == said[j]);
                        assert(names.take(i)[j] == names[j]);
                    }
                }
            }
            lemma_overview(names, i + 1, more, heard, at);
        }
    } else {
        assert(names.take(i) =~= names);
    }
}

/// The overview lists the users, reads the index of each whose record is listed, in order, and shows
/// each with their shares and the sum of the sizes that these name. A list that fails is answered
/// with why.
pub proof fn the_administrator_sees_all_users(
    site: Site,
    headers: Headers,
    heard: Seq<Reply>,
    at: int,
)
    requires
        admin(site, headers, heard) == FlowView::Go((), at),
        0 <= at,
    ensures
        ({
            let n = answer_next(site, headers, Request::AdminStats, heard);
            if heard.len() <= at {
                n == NextView::Perform(ActionView::ListAll { prefix: "users/"@ })
            } else {
                match heard[at] {
                    Reply::Failed(e) => n == NextView::Done(
                        AnswerView::Refused { status: 500, message: e.display@ },
                    ),
                    Reply::Objects(objects) => {
                        let names = users_listed(objects@);
                        let from = at + 1;
                        (forall|j: int|
                            0 <= j < names.len() && from + j < heard.len() ==> (
                            #[trigger] heard[from + j] matches Reply::Object(reply) && sizes_total(
                                index_entries(reply),
                            ) is Some)) ==> if from + names.len() <= heard.len() {
                            n matches NextView::Done(AnswerView::Stats { users }) && shows_users(
                                users,
                                names,
                                heard,
                                from,
                            )
                        } else {
                            n == NextView::Perform(
                                ActionView::Get {
                                    key: "users/"@ + names[heard.len() - from]
                                        + "/public_shares.json"@,
                                },
                            )
                        }
                    },
                    _ => true,
                }
            }
        }),
{
    if at < heard.len() {
        if let Reply::Objects(objects) = heard[at] {
            lemma_users_listed(objects@);
            let names = users_listed(objects@);
            let from = at + 1;
            if (forall|j: int|
                0 <= j < names.len() && from + j < heard.len() ==> (
                #[trigger] heard[from + j] matches Reply::Object(reply) && sizes_total(
                    index_entries(reply),
                ) is Some)) {
                let none = Seq::<UserStatsView>::empty();
                lemma_overview(names, 0, none, heard, from);
                if from + names.len() > heard.len() {
                    lemma_index_key(names[heard.len() - from]);
                }
            }
        }
    }
}

// ---------------------------------------------------------------------------
// The start
// ---------------------------------------------------------------------------

/// The server signs with the secret that it is given. Without one it reads the stored one; where
/// there is none it makes a new one and stores it, and goes on with it whatever came of storing it.
pub proof fn servers_start_with_a_secret(given: Option<Seq<char>>, heard: Seq<Reply>, secret: Vec<u8>)
    ensures
        ({
            let key = "config/jwt_secret.bin"@;
            let n = load_secret_next(given, heard);
            match given {
                Some(text) => n == NextView::Done(
                    AnswerView::Secret { secret: encode_utf8(text) },
                ),
                None => if heard.len() == 0 {
                    n == NextView::Perform(ActionView::Get { key })
                } else {
                    match heard[0] {
                        Reply::Object(ObjectReply::Bytes(b)) => n
                            == NextView::Done(AnswerView::Secret { secret: b@ }),
                        Reply::Object(_) => if heard.len() == 1 {
                            n == NextView::Perform(ActionView::FreshSecret)
                        } else {
                            heard[1] == Reply::Secret(secret) ==> if heard.len() == 2 {
                                n == NextView::Perform(
                                    ActionView::Put {
                                        key,
                                        content_type: "application/octet-stream"@,
                                        body: secret@,
                                    },
                                )
                            } else {
                                heard[2] is Done || heard[2] is Failed ==> n == NextView::Done(
                                    AnswerView::Secret { secret: secret@ },
                                )
                            }
                        },
                        _ => true,
                    }
                },
            }
        }),
{
}

/// The secret that one start stores is the one that the next start reads.
pub proof fn stored_secrets_are_used_again(heard: Seq<Reply>, later: Seq<Reply>)
    requires
        later.len() > 0,
    ensures
        load_secret_next(None, heard) matches NextView::Perform(
            ActionView::Put { key, body, .. },
        ) ==> {
            &&& load_secret_next(None, Seq::empty()) == NextView::Perform(ActionView::Get { key })
            &&& (later[0] matches Reply::Object(ObjectReply::Bytes(b)) && b@ == body)
                ==> load_secret_next(None, later) == NextView::Done(
                AnswerView::Secret { secret: body },
            )
            &&& heard.len() == 2 && (load_secret_next(
                None,
                heard.push(Reply::Done),
            ) == NextView::Done(AnswerView::Secret { secret: body }))
        },
{
    if let NextView::Perform(ActionView::Put { .. }) = load_secret_next(None, heard) {
        let more = heard.push(Reply::Done);
        assert(more[0] == heard[0] && more[1] == heard[1]);
    }
}

/// The server listens on the port that is set, where that is a number of a port, and otherwise on
/// 8000.
pub proof fn ports_are_read(setting: Option<Seq<char>>, n: int)
    ensures
        setting is None ==> port(setting) == 8000,
        0 <= n <= 65535 ==> port(Some(decimal(n))) == n,
        (setting matches Some(s) && (exists|i: int|
            0 <= i < s.len() && !is_digit(#[trigger] s[i]) && (i > 0 || s[i]
                != '+'))) ==> port(setting) == 8000,
{
    if 0 <= n {
        lemma_nat_text(n as nat);
        assert(is_digit(decimal(n)[0]));
    }
    if let Some(s) = setting {
        if exists|i: int| 0 <= i < s.len() && !is_digit(#[trigger] s[i]) && (i > 0 || s[i] != '+') {
            let i = choose|i: int|
                0 <= i < s.len() && !is_digit(#[trigger] s[i]) && (i > 0 || s[i] != '+');
            if s[0] == '+' {
                assert(s.skip(1)[i - 1] == s[i]);
            }
        }
    }
}

} // verus!
