//! What the server starts with: the secret that signs tokens, and the port.

use vstd::prelude::*;
use vstd::utf8::encode_utf8;
use crate::deletion::{is_settled, settled};
use crate::model::{clone_bytes, opt_view};
use crate::number::{parse_u16, u16_number};
use crate::protocol::{
    ask_get, ask_put_bytes, readable, Action, ActionView, Answer, AnswerView, Next, NextView,
    ObjectReply, Reply,
};

verus! {

/// Makes a new secret and stores it; whatever comes of storing it.
pub open spec fn new_secret(heard: Seq<Reply>) -> NextView {
    if heard.len() <= 1 {
        NextView::Perform(ActionView::FreshSecret)
    } else {
        match heard[1] {
            Reply::Secret(secret) => if heard.len() <= 2 {
                NextView::Perform(
                    ActionView::Put {
                        key: "config/jwt_secret.bin"@,
                        content_type: "application/octet-stream"@,
                        body: secret@,
                    },
                )
            } else if settled(heard[2]) {
                NextView::Done(AnswerView::Secret { secret: secret@ })
            } else {
                NextView::Misheard
            },
            _ => NextView::Misheard,
        }
    }
}

/// Makes a new secret and stores it.
fn generate_and_save_jwt_secret(heard: &Vec<Reply>) -> (r: Next)
    ensures
        r@ == new_secret(heard@),
        readable(r@),
{
    if heard.len() <= 1 {
        return Next::Perform(Action::FreshSecret);
    }
    match &heard[1] {
        Reply::Secret(secret) => {
            if heard.len() <= 2 {
                return ask_put_bytes(
                    "config/jwt_secret.bin".to_owned(),
                    clone_bytes(secret),
                );
            }
            if is_settled(&heard[2]) {
                Next::Done(Answer::Secret { secret: clone_bytes(secret) })
            } else {
                Next::Misheard
            }
        },
        _ => Next::Misheard,
    }
}

/// The secret that signs tokens: the one that the server is given, or else the stored one, or else
/// a new one.
pub open spec fn load_secret_next(given: Option<Seq<char>>, heard: Seq<Reply>) -> NextView {
    match given {
        Some(secret) => NextView::Done(AnswerView::Secret { secret: encode_utf8(secret) }),
        None => if heard.len() == 0 {
            NextView::Perform(ActionView::Get { key: "config/jwt_secret.bin"@ })
        } else {
            match heard[0] {
                Reply::Object(ObjectReply::Bytes(b)) => NextView::Done(
                    AnswerView::Secret { secret: b@ },
                ),
                Reply::Object(_) => new_secret(heard),
                _ => NextView::Misheard,
            }
        },
    }
}

/// The secret that signs tokens.
pub fn load_secret(given: &Option<String>, heard: &Vec<Reply>) -> (r: Next)
    ensures
        r@ == load_secret_next(opt_view(*given), heard@),
        readable(r@),
{
    match given {
        Some(secret) => Next::Done(Answer::Secret { secret: secret.as_str().as_bytes_vec() }),
        None => {
            if heard.len() == 0 {
                return ask_get("config/jwt_secret.bin".to_owned());
            }
            match &heard[0] {
                Reply::Object(ObjectReply::Bytes(b)) => Next::Done(
                    Answer::Secret { secret: clone_bytes(b) },
                ),
                Reply::Object(_) => generate_and_save_jwt_secret(heard),
                _ => Next::Misheard,
            }
        },
    }
}

/// The port that a setting gives, or else 8000.
pub open spec fn port(setting: Option<Seq<char>>) -> int {
    match setting {
        Some(s) => match u16_number(s) {
            Some(n) => n,
            None => 8000,
        },
        None => 8000,
    }
}

/// The port that a setting gives, or else 8000.
pub fn choose_port(setting: &Option<String>) -> (r: u16)
    ensures
        r == port(opt_view(*setting)),
{
    match setting {
        Some(s) => match parse_u16(s.as_str()) {
            Some(n) => n,
            None => 8000,
        },
        None => 8000,
    }
}

} // verus!
