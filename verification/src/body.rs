//! The body of a request that creates a player.
//!
//! The body is UTF-8 text that holds a JSON object with a text member
//! `username` and an integer member `score`. Reading JSON is left to
//! `serde_json`; what is made of the two members is decided here.

use crate::error::ErrorKind;
use crate::text::utf8_text;
use vstd::prelude::*;
use vstd::string::*;
use vstd::utf8::*;

verus! {

/// What `serde_json` reads from `text`: `None` if `text` is not one JSON
/// value. Otherwise the member `text_key` of that value if it is a string,
/// and the member `number_key` if it is an integer that fits an `i64`; a
/// value that is no object has no members.
pub uninterp spec fn json_members(text: Seq<char>, text_key: Seq<char>, number_key: Seq<char>) -> Option<
    (Option<Seq<char>>, Option<i64>),
>;

/// The two members of a JSON value that a new player is made of, as read.
#[derive(Debug, PartialEq, Eq)]
pub struct Members {
    /// The text member, if there is one and it is a string.
    pub text: Option<String>,
    /// The number member, if there is one and it is an integer in `i64`.
    pub number: Option<i64>,
}

impl View for Members {
    type V = (Option<Seq<char>>, Option<i64>);

    open spec fn view(&self) -> (Option<Seq<char>>, Option<i64>) {
        (
            match self.text {
                Some(s) => Some(s@),
                None => None,
            },
            self.number,
        )
    }
}

/// The members as read, or `None`, as mathematical values.
pub open spec fn members_view(members: Option<Members>) -> Option<(Option<Seq<char>>, Option<i64>)> {
    match members {
        Some(m) => Some(m@),
        None => None,
    }
}

/// A player to be created: a name and a score.
#[derive(Debug, PartialEq, Eq)]
pub struct NewPlayer {
    pub username: String,
    pub score: i64,
}

impl View for NewPlayer {
    type V = (Seq<char>, i64);

    open spec fn view(&self) -> (Seq<char>, i64) {
        (self.username@, self.score)
    }
}

/// The player that the members of a body describe, if both are there: the
/// name and the score as the body gives them.
pub open spec fn player_of_members(members: Option<(Option<Seq<char>>, Option<i64>)>) -> Result<
    (Seq<char>, i64),
    ErrorKind,
> {
    match members {
        Some((Some(username), Some(number))) => Ok((username, number)),
        _ => Err(ErrorKind::MalformedBody),
    }
}

/// The player that a body describes, or why it describes none.
pub open spec fn player_of_body(body: Seq<u8>) -> Result<(Seq<char>, i64), ErrorKind> {
    if valid_utf8(body) {
        player_of_members(json_members(decode_utf8(body), "username"@, "score"@))
    } else {
        Err(ErrorKind::MalformedBody)
    }
}

/// The result of a decoding, as mathematical values.
pub open spec fn new_player_view(r: Result<NewPlayer, ErrorKind>) -> Result<(Seq<char>, i64), ErrorKind> {
    match r {
        Ok(p) => Ok(p@),
        Err(e) => Err(e),
    }
}

/// `serde_json::from_str` into a `serde_json::Value`, then the value's
/// members `text_key` and `number_key` by index, through `Value::as_str` and
/// `Value::as_i64`. The result is what [`json_members`] names: it
/// depends on the three texts alone.
#[verifier::external_body]
pub(crate) fn read_members(text: &str, text_key: &str, number_key: &str) -> (members: Option<Members>)
    ensures
        members_view(members) == json_members(text@, text_key@, number_key@),
{
    match serde_json::from_str::<serde_json::Value>(text) {
        Ok(value) => Some(
            Members {
                text: value[text_key].as_str().map(String::from),
                number: value[number_key].as_i64(),
            },
        ),
        Err(_) => None,
    }
}

/// Makes a new player of the members read from a body.
///
/// Both members must be there. The score is the number as the body gives
/// it.
pub fn new_player_from_members(members: Option<Members>) -> (r: Result<NewPlayer, ErrorKind>)
    ensures
        new_player_view(r) == player_of_members(members_view(members)),
{
    match members {
        Some(m) => match (m.text, m.number) {
            (Some(username), Some(number)) => Ok(NewPlayer { username, score: number }),
            _ => Err(ErrorKind::MalformedBody),
        },
        None => Err(ErrorKind::MalformedBody),
    }
}

/// Decodes the body of a request that creates a player.
///
/// Fails with `MalformedBody` unless the body is UTF-8, is JSON, and holds a
/// text `username` and an integer `score`.
pub fn decode_player_body(body: &[u8]) -> (r: Result<NewPlayer, ErrorKind>)
    ensures
        new_player_view(r) == player_of_body(body@),
{
    broadcast use vstd::utf8::encode_utf8_decode_utf8;

    match utf8_text(body) {
        Some(text) => {
            assert(decode_utf8(body@) == text@);
            new_player_from_members(read_members(text, "username", "score"))
        },
        None => Err(ErrorKind::MalformedBody),
    }
}

} // verus!
