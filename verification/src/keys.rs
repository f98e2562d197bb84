//! The keys under which objects are stored.

use vstd::prelude::*;
use crate::text::{concat2, concat3};

verus! {

/// The prefix of the objects of a share.
pub open spec fn share_prefix(uuid: Seq<char>) -> Seq<char> {
    "uploads/"@ + uuid + "/"@
}

/// An object of a share.
pub open spec fn share_key(uuid: Seq<char>, name: Seq<char>) -> Seq<char> {
    share_prefix(uuid) + name
}

/// The record of a user.
pub open spec fn user_key(username: Seq<char>) -> Seq<char> {
    "users/"@ + username + ".json"@
}

/// The prefix of the objects of a user.
pub open spec fn user_prefix(username: Seq<char>) -> Seq<char> {
    "users/"@ + username + "/"@
}

/// An object of a user.
pub open spec fn user_object(username: Seq<char>, name: Seq<char>) -> Seq<char> {
    user_prefix(username) + name
}

/// The prefix of the objects of a share.
pub fn make_share_prefix(uuid: &str) -> (r: String)
    ensures
        r@ == share_prefix(uuid@),
{
    concat3("uploads/", uuid, "/")
}

/// An object of a share.
pub fn make_share_key(uuid: &str, name: &str) -> (r: String)
    ensures
        r@ == share_key(uuid@, name@),
{
    concat2(make_share_prefix(uuid).as_str(), name)
}

/// The record of a user.
pub fn make_user_key(username: &str) -> (r: String)
    ensures
        r@ == user_key(username@),
{
    concat3("users/", username, ".json")
}

/// The prefix of the objects of a user.
pub fn make_user_prefix(username: &str) -> (r: String)
    ensures
        r@ == user_prefix(username@),
{
    concat3("users/", username, "/")
}

/// An object of a user.
pub fn make_user_object(username: &str, name: &str) -> (r: String)
    ensures
        r@ == user_object(username@, name@),
{
    concat2(make_user_prefix(username).as_str(), name)
}

} // verus!
