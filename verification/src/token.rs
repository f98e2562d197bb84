//! Signed session tokens.
//!
//! A token is `<user name in hexadecimal>.<expiry>.<session id>.<signature>`.

use vstd::prelude::*;
use vstd::utf8::{
    decode_utf8, encode_utf8, encode_utf8_decode_utf8, encode_utf8_valid_utf8, valid_utf8,
};
use crate::crypto::{hmac_sha256, hmac_tag};
use crate::hex::{
    hex_decode, hex_encode, hex_read, hex_reads_back, hex_text, lemma_hex_chars, HexRead, HexView,
};
use crate::model::views;
use crate::number::{
    decimal, i64_number, i64_text, lemma_decimal_chars, lemma_decimal_reads_back, parse_i64,
};
use crate::text::{lemma_pieces_first, lemma_pieces_last, pieces, split};

verus! {

/// What a valid token says.
pub struct TokenView {
    /// The user that the session belongs to.
    pub username: Seq<char>,
    /// When the token expires; `0` stands for never.
    pub expiry: int,
    /// The session.
    pub session_id: Seq<char>,
}

/// The text that is signed.
pub open spec fn token_payload(t: TokenView) -> Seq<char> {
    t.username + ":"@ + decimal(t.expiry) + ":"@ + t.session_id
}

/// The signature of what a token says, in hexadecimal.
pub open spec fn token_signature(t: TokenView, secret: Seq<u8>) -> Seq<char> {
    hex_text(hmac_sha256(secret, encode_utf8(token_payload(t))))
}

/// The token that says `t`.
pub open spec fn token_text(t: TokenView, secret: Seq<u8>) -> Seq<char> {
    hex_text(encode_utf8(t.username)) + "."@ + decimal(t.expiry) + "."@ + t.session_id + "."@
        + token_signature(t, secret)
}

/// What the first three of the four parts of a token say, where they can be read.
pub open spec fn token_claim(parts: Seq<Seq<char>>) -> Option<TokenView> {
    match (i64_number(parts[1]), hex_read(parts[0])) {
        (Some(expiry), HexView::Bytes(name)) => if valid_utf8(name) {
            Some(TokenView { username: decode_utf8(name), expiry, session_id: parts[2] })
        } else {
            None
        },
        _ => None,
    }
}

/// What `token` says, where it has four parts that can be read and carries the signature of what
/// they say.
pub open spec fn token_content(token: Seq<char>, secret: Seq<u8>) -> Option<TokenView> {
    let parts = pieces(token, '.');
    if parts.len() == 4 {
        match token_claim(parts) {
            Some(t) => if parts[3] == token_signature(t, secret) {
                Some(t)
            } else {
                None
            },
            None => None,
        }
    } else {
        None
    }
}

/// Whether reading `token` would take a character outside ASCII apart.
pub open spec fn token_cuts_character(token: Seq<char>) -> bool {
    let parts = pieces(token, '.');
    parts.len() == 4 && i64_number(parts[1]) is Some && hex_read(parts[0]) is Cut
}

/// `String::from_utf8` takes exactly the well-formed UTF-8 and gives the characters it encodes.
#[verifier::external_body]
pub(crate) fn utf8_string(bytes: Vec<u8>) -> (r: Option<String>)
    ensures
        match r {
            Some(s) => valid_utf8(bytes@) && s@ == decode_utf8(bytes@),
            None => !valid_utf8(bytes@),
        },
{
    String::from_utf8(bytes).ok()
}

/// The signature of what a token says, in hexadecimal.
fn sign(username: &str, expiry_timestamp: i64, session_id: &str, secret: &[u8]) -> (r: String)
    ensures
        r@ == token_signature(
            TokenView {
                username: username@,
                expiry: expiry_timestamp as int,
                session_id: session_id@,
            },
            secret@,
        ),
        r@.len() == 64,
{
    let mut payload = username.to_owned();
    payload.append(":");
    payload.append(i64_text(expiry_timestamp).as_str());
    payload.append(":");
    payload.append(session_id);
    let tag = hmac_tag(secret, payload.as_str().as_bytes());
    hex_encode(tag.as_slice())
}

/// The token for a session of `username`. Its signature has 64 digits.
pub fn generate_token(
    username: &str,
    secret: &[u8],
    expiry_timestamp: i64,
    session_id: &str,
) -> (r: String)
    ensures
        r@ == token_text(
            TokenView {
                username: username@,
                expiry: expiry_timestamp as int,
                session_id: session_id@,
            },
            secret@,
        ),
        token_signature(
            TokenView {
                username: username@,
                expiry: expiry_timestamp as int,
                session_id: session_id@,
            },
            secret@,
        ).len() == 64,
{
    let signature = sign(username, expiry_timestamp, session_id, secret);
    let mut r = hex_encode(username.as_bytes());
    r.append(".");
    r.append(i64_text(expiry_timestamp).as_str());
    r.append(".");
    r.append(session_id);
    r.append(".");
    r.append(signature.as_str());
    r
}

/// Whether reading `token` would take a character outside ASCII apart.
pub fn token_is_cut(token: &str) -> (r: bool)
    ensures
        r == token_cuts_character(token@),
{
    let parts = split(token, '.');
    if parts.len() != 4 {
        return false;
    }
    assert(views(parts@)[0] == parts@[0]@ && views(parts@)[1] == parts@[1]@);
    if parse_i64(parts[1].as_str()).is_none() {
        return false;
    }
    match hex_decode(parts[0].as_str()) {
        HexRead::Cut => true,
        _ => false,
    }
}

/// The user name, expiry and session id that `token` says, where its signature is right. A
/// signature that is right has 64 digits.
pub fn verify_token_signature(token: &str, secret: &[u8]) -> (r: Option<(String, i64, String)>)
    requires
        !token_cuts_character(token@),
    ensures
        match r {
            Some((username, expiry, session_id)) => token_content(token@, secret@) == Some(
                TokenView { username: username@, expiry: expiry as int, session_id: session_id@ },
            ),
            None => token_content(token@, secret@) is None,
        },
        r is Some ==> pieces(token@, '.')[3].len() == 64,
{
    let parts = split(token, '.');
    if parts.len() != 4 {
        return None;
    }
    assert(forall|i: int| 0 <= i < 4 ==> #[trigger] views(parts@)[i] == parts@[i]@);
    let expiry_timestamp = match parse_i64(parts[1].as_str()) {
        Some(n) => n,
        None => {
            return None;
        },
    };
    let username = match hex_decode(parts[0].as_str()) {
        HexRead::Bytes(bytes) => match utf8_string(bytes) {
            Some(name) => name,
            None => {
                return None;
            },
        },
        _ => {
            return None;
        },
    };
    let session_id = parts[2].clone();
    let expected = sign(username.as_str(), expiry_timestamp, session_id.as_str(), secret);
    if expected == parts[3] {
        Some((username, expiry_timestamp, session_id))
    } else {
        None
    }
}

// ---------------------------------------------------------------------------
// Laws
// ---------------------------------------------------------------------------

/// A token for a session whose id holds no `.` has four parts: the name, the expiry, the session
/// id and the signature.
proof fn lemma_token_parts(t: TokenView, secret: Seq<u8>)
    requires
        !t.session_id.contains('.'),
    ensures
        pieces(token_text(t, secret), '.') == seq![
            hex_text(encode_utf8(t.username)),
            decimal(t.expiry),
            t.session_id,
            token_signature(t, secret),
        ],
{
    let name = hex_text(encode_utf8(t.username));
    let expiry = decimal(t.expiry);
    let signature = token_signature(t, secret);
    reveal_strlit(".");
    assert("."@ =~= seq!['.']);
    assert(!name.contains('.')) by {
        if name.contains('.') {
            let i = choose|i: int| 0 <= i < name.len() && name[i] == '.';
            lemma_hex_chars(encode_utf8(t.username), i);
        }
    }
    assert(!expiry.contains('.')) by {
        if expiry.contains('.') {
            let i = choose|i: int| 0 <= i < expiry.len() && expiry[i] == '.';
            lemma_decimal_chars(t.expiry, i);
        }
    }
    let tag = hmac_sha256(secret, encode_utf8(token_payload(t)));
    assert(!signature.contains('.')) by {
        if signature.contains('.') {
            let i = choose|i: int| 0 <= i < signature.len() && signature[i] == '.';
            lemma_hex_chars(tag, i);
        }
    }
    let from_id = t.session_id + seq!['.'] + signature;
    let from_expiry = expiry + seq!['.'] + from_id;
    assert(token_text(t, secret) =~= name + seq!['.'] + from_expiry);
    lemma_pieces_first(name, '.', from_expiry);
    lemma_pieces_first(expiry, '.', from_id);
    lemma_pieces_first(t.session_id, '.', signature);
    lemma_pieces_last(signature, '.');
    assert(pieces(token_text(t, secret), '.') =~= seq![name, expiry, t.session_id, signature]);
}

/// A token is accepted under the secret that signed it, and says what it was made to say.
pub proof fn token_reads_back(t: TokenView, secret: Seq<u8>)
    requires
        !t.session_id.contains('.'),
        i64::MIN <= t.expiry <= i64::MAX,
    ensures
        token_content(token_text(t, secret), secret) == Some(t),
        !token_cuts_character(token_text(t, secret)),
{
    lemma_token_parts(t, secret);
    hex_reads_back(encode_utf8(t.username));
    lemma_decimal_reads_back(t.expiry);
    encode_utf8_valid_utf8(t.username);
    encode_utf8_decode_utf8(t.username);
}

/// A token that is accepted ends with the keyed digest of what it says.
pub proof fn accepted_token_is_signed(token: Seq<char>, secret: Seq<u8>)
    requires
        token_content(token, secret) is Some,
    ensures
        pieces(token, '.').len() == 4,
        pieces(token, '.')[3] == token_signature(token_content(token, secret)->0, secret),
        pieces(token, '.')[2] == token_content(token, secret)->0.session_id,
{
}

} // verus!
