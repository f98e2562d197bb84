//! Laws of accounts and profiles: registering, the list of shares, the picture, the password.

use vstd::prelude::*;
use vstd::utf8::encode_utf8;
use crate::account::user_record;
use crate::api::{answer_next, Request};
use crate::crypto::stored_hash;
use crate::gate::{caller, Headers, Site};
use crate::hex::{hex_read, hex_read_lossy, hex_text, pair_value, HexView};
use crate::json::{json_parsed, json_printed, text_member, JsonTree};
use crate::laws_removals::lemma_index_key;
use crate::laws_sessions::{lemma_listed, listed};
use crate::laws_terms::passwords_are_stored_as_digests;
use crate::model::opt_view;
use crate::profile::ChangePasswordRequest;
use crate::protocol::{ActionView, AnswerView, NextView, ObjectReply, Reply, SessionsReply};
use crate::session::SessionView;
use crate::text::{letter_or_number, trimmed};

verus! {

/// Whether a document is the record of a user with a password and nothing else.
pub open spec fn is_new_record(t: JsonTree, auth_key: Seq<char>) -> bool {
    t matches JsonTree::Object(members) && {
        &&& members.dom() == set!["password_hash"@]
        &&& members["password_hash"@] == JsonTree::Text(stored_hash(auth_key))
    }
}

/// Registering takes the name without white space at its ends. A name that is too short or too
/// long, that has other characters than letters, numbers, dashes and underscores, or that is taken,
/// is refused. Any other is looked up, and stored as a record with the digest of the key.
pub proof fn names_are_registered(
    site: Site,
    headers: Headers,
    username: String,
    auth_key: String,
    heard: Seq<Reply>,
)
    ensures
        ({
            let name = trimmed(username@);
            let key = "users/"@ + name + ".json"@;
            let bytes = encode_utf8(name).len();
            let n = answer_next(
                site,
                headers,
                (Request::Register { username, auth_key }),
                heard,
            );
            if bytes < 3 || bytes > 30 {
                n == NextView::Done(
                    AnswerView::Refused {
                        status: 400,
                        message: "Username must be between 3 and 30 characters"@,
                    },
                )
            } else if exists|i: int|
                0 <= i < name.len() && !(letter_or_number(#[trigger] name[i])
                    || name[i] == '-' || name[i] == '_') {
                n == NextView::Done(
                    AnswerView::Refused {
                        status: 400,
                        message:
                            "Username can only contain letters, numbers, dashes, and underscores"@,
                    },
                )
            } else if heard.len() == 0 {
                n == NextView::Perform(ActionView::Head { key })
            } else {
                match heard[0] {
                    Reply::Exists(true) => n == NextView::Done(
                        AnswerView::Refused { status: 400, message: "Username is already taken"@ },
                    ),
                    Reply::Exists(false) => if heard.len() == 1 {
                        exists|t: JsonTree| #[trigger]
                            is_new_record(t, auth_key@) && n == NextView::Perform(
                                ActionView::Put {
                                    key,
                                    content_type: "application/json"@,
                                    body: json_printed(t),
                                },
                            )
                    } else {
                        match heard[1] {
                            Reply::Done => n == NextView::Done(AnswerView::Success),
                            Reply::Failed(e) => n == NextView::Done(
                                AnswerView::Refused {
                                    status: 500,
                                    message: "Failed to save user: "@ + e.debug@,
                                },
                            ),
                            _ => true,
                        }
                    },
                    _ => true,
                }
            }
        }),
{
    passwords_are_stored_as_digests(
        auth_key@,
        stored_hash(auth_key@),
    );
    assert(is_new_record(user_record(stored_hash(auth_key@)), auth_key@));
}

// ---------------------------------------------------------------------------
// The list of shares and the profile
// ---------------------------------------------------------------------------

/// A user is given their stored list of shares in hexadecimal, or an empty text where there is
/// none; and what they save is what their payload stands for, stored as their list of shares.
pub proof fn lists_of_shares_are_given_and_stored(
    site: Site,
    headers: Headers,
    shares_enc: String,
    heard: Seq<Reply>,
)
    requires
        caller(site, headers, heard) is Go,
    ensures
        ({
            let c = caller(site, headers, heard)->Go_0;
            let key = "users/"@ + c.username + "/"@ + "shares.enc"@;
            let given = answer_next(site, headers, Request::GetShares, heard);
            let saved = answer_next(site, headers, (Request::SaveShares { shares_enc }), heard);
            &&& if heard.len() == 1 {
                given == NextView::Perform(ActionView::Get { key })
            } else {
                match heard[1] {
                    Reply::Object(ObjectReply::Absent) => given == NextView::Done(
                        AnswerView::SharesText { shares_enc: Seq::empty() },
                    ),
                    Reply::Object(ObjectReply::BodyFailed(e)) => given == NextView::Done(
                        AnswerView::Refused { status: 500, message: e.display@ },
                    ),
                    Reply::Object(ObjectReply::Bytes(b)) => given == NextView::Done(
                        AnswerView::SharesText { shares_enc: hex_text(b@) },
                    ),
                    _ => true,
                }
            }
            &&& match hex_read(trimmed(shares_enc@)) {
                HexView::BadDigit => saved == NextView::Done(
                    AnswerView::Refused {
                        status: 400,
                        message: "Invalid encrypted payload hex encoding"@,
                    },
                ),
                HexView::Cut => saved == NextView::Crash,
                HexView::Bytes(body) => if heard.len() == 1 {
                    saved == NextView::Perform(
                        ActionView::Put { key, content_type: "application/octet-stream"@, body },
                    )
                } else {
                    match heard[1] {
                        Reply::Done => saved == NextView::Done(AnswerView::Success),
                        Reply::Failed(e) => saved == NextView::Done(
                            AnswerView::Refused {
                                status: 500,
                                message: "Failed to save shares to S3: "@ + e.debug@,
                            },
                        ),
                        _ => true,
                    }
                },
            }
        }),
{
}

/// A user's profile is their name and their stored picture in hexadecimal, or an empty text where
/// there is none.
pub proof fn profiles_are_given(site: Site, headers: Headers, heard: Seq<Reply>)
    requires
        caller(site, headers, heard) is Go,
    ensures
        ({
            let c = caller(site, headers, heard)->Go_0;
            let n = answer_next(site, headers, Request::GetProfile, heard);
            if heard.len() == 1 {
                n == NextView::Perform(
                    ActionView::Get { key: "users/"@ + c.username + "/"@ + "pfp.enc"@ },
                )
            } else {
                heard[1] matches Reply::Object(picture) ==> n == NextView::Done(
                    AnswerView::Profile {
                        username: c.username,
                        pfp_enc: match picture {
                            ObjectReply::Bytes(b) => hex_text(b@),
                            _ => Seq::empty(),
                        },
                    },
                )
            }
        }),
{
}

/// The record that is stored in place of another because it holds a picture: the same but for it.
pub open spec fn record_without_picture(r: ObjectReply) -> Option<Seq<u8>> {
    match r {
        ObjectReply::Bytes(b) => match json_parsed(b@) {
            Ok(JsonTree::Object(members)) => if members.contains_key("pfp"@) {
                Some(json_printed(JsonTree::Object(members.remove("pfp"@))))
            } else {
                None
            },
            _ => None,
        },
        _ => None,
    }
}

/// Saving a profile reads the record of the user. Where the record holds a picture, it is stored
/// again without it, and otherwise left as it is. Then the picture is stored as an object of the
/// user: the bytes that the first of the two payloads that is not empty stands for, up to twelve
/// million of them. A blank payload removes the picture.
pub proof fn profiles_are_saved(
    site: Site,
    headers: Headers,
    pfp_enc: String,
    pfp: String,
    heard: Seq<Reply>,
    record: ObjectReply,
    at: int,
)
    requires
        caller(site, headers, heard) is Go,
        heard.len() > 1 ==> heard[1] == Reply::Object(record),
        at == if record_without_picture(record) is Some {
            3int
        } else {
            2
        },
        heard.len() > 2 && at == 3 ==> heard[2] is Done || heard[2] is Failed,
    ensures
        ({
            let c = caller(site, headers, heard)->Go_0;
            let key = "users/"@ + c.username + "/"@ + "pfp.enc"@;
            let payload = trimmed(
                if pfp_enc@.len() > 0 {
                    pfp_enc@
                } else {
                    pfp@
                },
            );
            let n = answer_next(site, headers, (Request::SaveProfile { pfp_enc, pfp }), heard);
            if heard.len() == 1 {
                n == NextView::Perform(
                    ActionView::Get { key: "users/"@ + c.username + ".json"@ },
                )
            } else if heard.len() < at {
                record_without_picture(record) matches Some(body) && n == NextView::Perform(
                    ActionView::Put {
                        key: "users/"@ + c.username + ".json"@,
                        content_type: "application/json"@,
                        body,
                    },
                )
            } else if payload.len() == 0 {
                if heard.len() == at {
                    n == NextView::Perform(ActionView::Delete { key })
                } else {
                    heard[at] is Done || heard[at] is Failed ==> n == NextView::Done(
                        AnswerView::Success,
                    )
                }
            } else {
                match hex_read(payload) {
                    HexView::BadDigit => n == NextView::Done(
                        AnswerView::Refused {
                            status: 400,
                            message: "Invalid encrypted payload hex encoding"@,
                        },
                    ),
                    HexView::Cut => n == NextView::Crash,
                    HexView::Bytes(body) => if body.len() > 12_000_000 {
                        n == NextView::Done(
                            AnswerView::Refused {
                                status: 400,
                                message: "Profile picture too large"@,
                            },
                        )
                    } else if heard.len() == at {
                        n == NextView::Perform(
                            ActionView::Put {
                                key,
                                content_type: "application/octet-stream"@,
                                body,
                            },
                        )
                    } else {
                        match heard[at] {
                            Reply::Done => n == NextView::Done(AnswerView::Success),
                            Reply::Failed(e) => n == NextView::Done(
                                AnswerView::Refused {
                                    status: 500,
                                    message: "Failed to update profile picture: "@ + e.debug@,
                                },
                            ),
                            _ => true,
                        }
                    },
                }
            }
        }),
{
}

// ---------------------------------------------------------------------------
// The password
// ---------------------------------------------------------------------------

/// Changing a password reads the record of the user. Without one, and with the wrong key, nothing
/// is changed.
pub proof fn password_changes_need_the_right_key(
    site: Site,
    headers: Headers,
    req: ChangePasswordRequest,
    heard: Seq<Reply>,
)
    requires
        caller(site, headers, heard) is Go,
    ensures
        ({
            let c = caller(site, headers, heard)->Go_0;
            let n = answer_next(site, headers, (Request::ChangePassword { req }), heard);
            if heard.len() == 1 {
                n == NextView::Perform(
                    ActionView::Get { key: "users/"@ + c.username + ".json"@ },
                )
            } else {
                match heard[1] {
                    Reply::Object(ObjectReply::Absent) => n == NextView::Done(
                        AnswerView::Refused { status: 404, message: "User profile not found"@ },
                    ),
                    Reply::Object(ObjectReply::BodyFailed(e)) => n == NextView::Done(
                        AnswerView::Refused { status: 500, message: e.display@ },
                    ),
                    Reply::Object(ObjectReply::Bytes(b)) => match json_parsed(b@) {
                        Err(message) => n == NextView::Done(
                            AnswerView::Refused { status: 500, message },
                        ),
                        Ok(record) => match text_member(record, "password_hash"@) {
                            None => n == NextView::Done(
                                AnswerView::Refused {
                                    status: 500,
                                    message: "Invalid user profile data in S3"@,
                                },
                            ),
                            Some(hash) => hash != stored_hash(req.current_auth_key@) ==> n
                                == NextView::Done(
                                AnswerView::Refused {
                                    status: 401,
                                    message: "Incorrect current password"@,
                                },
                            ),
                        },
                    },
                    _ => true,
                }
            }
        }),
{
}

/// What is done with the picture when a password is changed: nothing where none is given, it is
/// removed where it is blank, and otherwise stored as what can be read of it.
pub open spec fn picture_action(
    username: Seq<char>,
    payload: Option<Seq<char>>,
) -> Option<ActionView> {
    match payload {
        None => None,
        Some(text) => Some(
            if trimmed(text).len() == 0 {
                ActionView::Delete { key: "users/"@ + username + "/"@ + "pfp.enc"@ }
            } else {
                ActionView::Put {
                    key: "users/"@ + username + "/"@ + "pfp.enc"@,
                    content_type: "application/octet-stream"@,
                    body: hex_read_lossy(trimmed(text))->Bytes_0,
                }
            },
        ),
    }
}

/// With the right key, changing a password stores the record with the digest of the new key and
/// everything else as it was, then the list of shares as encrypted anew, then the picture where one
/// is given. Last it stores the list of sessions with the sessions of the caller's id and no
/// others. A record or a list of shares that cannot be stored ends it.
pub proof fn passwords_are_changed(
    site: Site,
    headers: Headers,
    req: ChangePasswordRequest,
    heard: Seq<Reply>,
    members: Map<Seq<char>, JsonTree>,
    shares: Seq<u8>,
    at: int,
    reply: SessionsReply,
)
    requires
        caller(site, headers, heard) is Go,
        heard.len() > 1,
        heard[1] matches Reply::Object(ObjectReply::Bytes(b)) && json_parsed(b@) == Ok::<
            JsonTree,
            Seq<char>,
        >(JsonTree::Object(members)),
        members.contains_key("password_hash"@),
        members["password_hash"@] == JsonTree::Text(stored_hash(req.current_auth_key@)),
        hex_read(trimmed(req.new_shares_enc@)) == HexView::Bytes(shares),
        req.new_pfp_enc matches Some(text) ==> trimmed(text@).len() == 0 || hex_read_lossy(
            trimmed(text@),
        ) is Bytes,
        at == if req.new_pfp_enc is Some {
            5int
        } else {
            4
        },
        heard.len() > 3 ==> heard[2] is Done,
        heard.len() > 4 ==> heard[3] is Done,
        at == 5 && heard.len() > 4 ==> heard[4] is Done || heard[4] is Failed,
        heard.len() > at ==> heard[at] == Reply::Sessions(reply),
    ensures
        ({
            let c = caller(site, headers, heard)->Go_0;
            let key = "users/"@ + c.username + "/sessions.json"@;
            let n = answer_next(site, headers, (Request::ChangePassword { req }), heard);
            if heard.len() == 2 {
                n == NextView::Perform(
                    ActionView::Put {
                        key: "users/"@ + c.username + ".json"@,
                        content_type: "application/json"@,
                        body: json_printed(
                            JsonTree::Object(
                                members.insert(
                                    "password_hash"@,
                                    JsonTree::Text(stored_hash(req.new_auth_key@)),
                                ),
                            ),
                        ),
                    },
                )
            } else if heard.len() == 3 {
                match heard[2] {
                    Reply::Done => n == NextView::Perform(
                        ActionView::Put {
                            key: "users/"@ + c.username + "/"@ + "shares.enc"@,
                            content_type: "application/octet-stream"@,
                            body: shares,
                        },
                    ),
                    Reply::Failed(e) => n == NextView::Done(
                        AnswerView::Refused {
                            status: 500,
                            message: "Failed to update profile: "@ + e.debug@,
                        },
                    ),
                    _ => true,
                }
            } else if heard.len() == 4 && !(heard[3] is Done) {
                heard[3] matches Reply::Failed(e) ==> n == NextView::Done(
                    AnswerView::Refused {
                        status: 500,
                        message: "Failed to save new shares: "@ + e.debug@,
                    },
                )
            } else if heard.len() < at {
                picture_action(
                    c.username,
                    opt_view(req.new_pfp_enc),
                ) matches Some(a) && n == NextView::Perform(a)
            } else if heard.len() == at {
                n == NextView::Perform(ActionView::GetSessions { key })
            } else if heard.len() == at + 1 {
                n == NextView::Perform(
                    ActionView::PutSessions {
                        key,
                        sessions: listed(reply).filter(
                            |s: SessionView| s.id == c.session_id,
                        ),
                    },
                )
            } else {
                heard[at + 1] is Done || heard[at + 1] is Failed || heard[at + 1] is NotEncoded
                    ==> n == NextView::Done(AnswerView::Success)
            }
        }),
{
    let c = caller(site, headers, heard)->Go_0;
    lemma_index_key(c.username);
    lemma_listed(reply);
}

/// A new list of shares that cannot be read is refused once the new password is stored.
pub proof fn unreadable_lists_break_password_changes_off(
    site: Site,
    headers: Headers,
    req: ChangePasswordRequest,
    heard: Seq<Reply>,
)
    requires
        caller(site, headers, heard) is Go,
        heard.len() > 2,
        heard[1] matches Reply::Object(ObjectReply::Bytes(b)) && (json_parsed(b@) matches Ok(record)
            && text_member(record, "password_hash"@) == Some(stored_hash(req.current_auth_key@))),
        heard[2] is Done,
    ensures
        ({
            let n = answer_next(site, headers, (Request::ChangePassword { req }), heard);
            match hex_read(trimmed(req.new_shares_enc@)) {
                HexView::BadDigit => n == NextView::Done(
                    AnswerView::Refused {
                        status: 400,
                        message: "Invalid encrypted payload hex encoding"@,
                    },
                ),
                HexView::Cut => n == NextView::Crash,
                _ => true,
            }
        }),
{
}

// ---------------------------------------------------------------------------
// Hexadecimal
// ---------------------------------------------------------------------------

/// What a digit stands for: `0` to `9` and, in either case, `a` to `f`.
pub open spec fn digit_value(c: char) -> int {
    if c <= '9' {
        c as int - 0x30
    } else if c <= 'F' {
        c as int - 0x41 + 10
    } else {
        c as int - 0x61 + 10
    }
}

/// Whether a character is a hexadecimal digit.
pub open spec fn is_hex(c: char) -> bool {
    '0' <= c <= '9' || 'a' <= c <= 'f' || 'A' <= c <= 'F'
}

/// Pairs of hexadecimal digits in either case are read as one byte each; a digit left over at the
/// end is passed over.
pub proof fn pairs_of_digits_are_bytes(s: Seq<char>)
    requires
        forall|i: int| 0 <= i < s.len() ==> is_hex(#[trigger] s[i]),
    ensures
        hex_read(s) == HexView::Bytes(
            Seq::new(
                s.len() / 2,
                |i: int| (digit_value(s[2 * i]) * 16 + digit_value(s[2 * i + 1])) as u8,
            ),
        ),
    decreases s.len(),
{
    let all = Seq::new(
        s.len() / 2,
        |i: int| (digit_value(s[2 * i]) * 16 + digit_value(s[2 * i + 1])) as u8,
    );
    if s.len() >= 2 {
        assert(is_hex(s[0]) && is_hex(s[1]));
        let t = s.skip(2);
        assert forall|i: int| 0 <= i < t.len() implies is_hex(#[trigger] t[i]) by {
            assert(s[i + 2] == t[i]);
        }
        pairs_of_digits_are_bytes(t);
        let rest = Seq::new(
            t.len() / 2,
            |i: int| (digit_value(t[2 * i]) * 16 + digit_value(t[2 * i + 1])) as u8,
        );
        let first = (digit_value(s[0]) * 16 + digit_value(s[1])) as u8;
        assert(pair_value(s[0], s[1]) == Some(first));
        assert(seq![first] + rest =~= all) by {
            assert forall|i: int| 0 <= i < all.len() implies (seq![first] + rest)[i] == all[i] by {
                if i > 0 {
                    assert(t[2 * (i - 1)] == s[2 * i]);
                    assert(t[2 * (i - 1) + 1] == s[2 * i + 1]);
                }
            }
        }
    } else {
        if s.len() == 1 {
            assert(is_hex(s[0]));
        }
        assert(all =~= Seq::<u8>::empty());
    }
}

/// A text with a pair that is not a number is refused, unless a character outside ASCII comes
/// first.
pub proof fn other_pairs_are_refused(s: Seq<char>, i: int)
    requires
        0 <= i,
        2 * i + 1 < s.len(),
        forall|j: int| 0 <= j < 2 * i + 2 ==> #[trigger] s[j] <= '\u{7f}',
        !is_hex(s[2 * i + 1]) || !(is_hex(s[2 * i]) || s[2 * i] == '+'),
    ensures
        hex_read(s) is BadDigit || hex_read(s) is Cut,
        (forall|j: int| 0 <= j < s.len() ==> #[trigger] s[j] <= '\u{7f}') ==> hex_read(s)
            is BadDigit,
    decreases i,
{
    assert(s[0] <= '\u{7f}' && s[1] <= '\u{7f}');
    if i > 0 {
        let t = s.skip(2);
        assert forall|j: int| 0 <= j < 2 * (i - 1) + 2 implies #[trigger] t[j] <= '\u{7f}' by {
            assert(s[j + 2] == t[j]);
        }
        assert(t[2 * (i - 1)] == s[2 * i]);
        assert(t[2 * (i - 1) + 1] == s[2 * i + 1]);
        other_pairs_are_refused(t, i - 1);
        if forall|j: int| 0 <= j < s.len() ==> #[trigger] s[j] <= '\u{7f}' {
            assert forall|j: int| 0 <= j < t.len() implies #[trigger] t[j] <= '\u{7f}' by {
                assert(s[j + 2] == t[j]);
            }
        }
    }
}

/// A new picture that would be taken apart inside a character makes a change of password break off,
/// once the list of shares is stored.
pub proof fn cut_pictures_break_password_changes_off(
    site: Site,
    headers: Headers,
    req: ChangePasswordRequest,
    heard: Seq<Reply>,
)
    requires
        caller(site, headers, heard) is Go,
        heard.len() > 3,
        heard[1] matches Reply::Object(ObjectReply::Bytes(b)) && (json_parsed(b@) matches Ok(record)
            && text_member(record, "password_hash"@) == Some(stored_hash(req.current_auth_key@))),
        heard[2] is Done,
        hex_read(trimmed(req.new_shares_enc@)) is Bytes,
        heard[3] is Done,
        req.new_pfp_enc matches Some(text) && trimmed(text@).len() > 0 && hex_read_lossy(
            trimmed(text@),
        ) is Cut,
    ensures
        answer_next(site, headers, (Request::ChangePassword { req }), heard) == NextView::Crash,
{
}

} // verus!
