//! Response-code parsing: a reply body's first token maps to a protocol
//! code, and the rest of the line is the human-readable text.

use vstd::prelude::*;
use crate::error::EslError;
use crate::message::str_eq;

verus! {

/// The protocol-defined response codes.  `Okay` and `Failure` are the two
/// tokens the peer defines; anything else is `Unknown` and treated as a
/// non-fatal pass-through.
#[derive(Clone, Copy, Debug, PartialEq, Eq, Structural)]
pub enum ReplyCode {
    Okay,
    Failure,
    Unknown,
}

/// Whitespace as the separator search understands it.
pub open spec fn is_wspace(c: char) -> bool {
    c == ' ' || c == '\t' || c == '\n' || c == '\r' || c == '\x0b' || c == '\x0c'
}

/// The first whitespace position at or after `i`.
pub open spec fn first_ws_from(s: Seq<char>, i: int) -> Option<int>
    decreases s.len() - i when 0 <= i <= s.len()
{
    if i >= s.len() {
        None
    } else if is_wspace(s[i]) {
        Some(i)
    } else {
        first_ws_from(s, i + 1)
    }
}

/// The code a token stands for.
pub open spec fn code_of(token: Seq<char>) -> ReplyCode {
    if token == "+OK"@ {
        ReplyCode::Okay
    } else if token == "-ERR"@ {
        ReplyCode::Failure
    } else {
        ReplyCode::Unknown
    }
}

/// What parsing a response line yields: split at the first whitespace, the
/// leading token names the code, and the remainder minus one trailing
/// terminator character is the text.  A line with no whitespace at all does
/// not parse.
pub open spec fn spec_parse_api_response(s: Seq<char>) -> Option<(ReplyCode, Seq<char>)> {
    match first_ws_from(s, 0) {
        None => None,
        Some(i) => Some(
            (
                code_of(s.take(i)),
                if i + 1 < s.len() {
                    s.subrange(i + 1, s.len() - 1)
                } else {
                    Seq::<char>::empty()
                },
            ),
        ),
    }
}

/// Whether this character separates the code token from the text.
fn is_wspace_exec(c: char) -> (r: bool)
    ensures
        r == is_wspace(c),
{
    c == ' ' || c == '\t' || c == '\n' || c == '\r' || c == '\x0b' || c == '\x0c'
}

/// Maps a code token to its [`ReplyCode`].
pub fn parse_code(token: &str) -> (r: ReplyCode)
    ensures
        r == code_of(token@),
{
    if str_eq(token, "+OK") {
        ReplyCode::Okay
    } else if str_eq(token, "-ERR") {
        ReplyCode::Failure
    } else {
        ReplyCode::Unknown
    }
}

/// Splits a reply body into its response code and trailing text, per
/// [`spec_parse_api_response`]; a body without any whitespace is an internal
/// error, since no conformant peer produces one.
pub fn parse_api_response(body: &str) -> (r: Result<(ReplyCode, String), EslError>)
    ensures
        r matches Ok(p) ==> spec_parse_api_response(body@) == Some((p.0, p.1@)),
        r matches Err(e) ==> (spec_parse_api_response(body@) is None && e is InternalError),
{
    let len = body.unicode_len();
    let mut i: usize = 0;
    let mut found = false;
    while i < len && !found
        invariant
            len == body@.len(),
            i <= len,
            first_ws_from(body@, 0) == if found {
                Some(i as int)
            } else {
                first_ws_from(body@, i as int)
            },
            found ==> i < len,
        decreases len - i, (if found { 0int } else { 1int }),
    {
        if is_wspace_exec(body.get_char(i)) {
            found = true;
        } else {
            i += 1;
        }
    }
    if !found {
        return Err(
            EslError::InternalError(String::from_str("response line has no whitespace separator")),
        );
    }
    let code_token = body.substring_char(0, i);
    let code = parse_code(code_token);
    let text = if i + 1 < len {
        body.substring_char(i + 1, len - 1).to_owned()
    } else {
        String::new()
    };
    assert(code_token@ == body@.take(i as int));
    Ok((code, text))
}

/// Reads an `api` reply body: success text on the success code, an API
/// failure carrying the peer's text on the failure code, and the whole raw
/// body on an unknown code.
pub fn interpret_api_reply(body: &str) -> (r: Result<String, EslError>)
    ensures
        spec_parse_api_response(body@) matches Some(p) ==> (p.0 is Okay ==> (r matches Ok(t)
            && t@ == p.1)) && (p.0 is Failure ==> (r matches Err(e) && e matches
        EslError::ApiError(ft) && ft@ == p.1)) && (p.0 is Unknown ==> (r matches Ok(t) && t@
            == body@)),
        spec_parse_api_response(body@) is None ==> (r matches Err(e) && e is InternalError),
{
    let parsed = parse_api_response(body)?;
    match parsed.0 {
        ReplyCode::Okay => Ok(parsed.1),
        ReplyCode::Failure => Err(EslError::ApiError(parsed.1)),
        ReplyCode::Unknown => Ok(body.to_owned()),
    }
}

/// Reads the `Reply-Text` of an authentication reply: success text on the
/// success code, an authentication failure on the failure code, and an
/// internal error on anything else.
pub fn interpret_auth_reply(reply_text: &str) -> (r: Result<String, EslError>)
    ensures
        spec_parse_api_response(reply_text@) matches Some(p) ==> (p.0 is Okay ==> (r matches Ok(
        t) && t@ == p.1)) && (p.0 is Failure ==> r == Err::<String, EslError>(
        EslError::AuthFailed)) && (p.0 is Unknown ==> (r matches Err(e) && e is InternalError)),
        spec_parse_api_response(reply_text@) is None ==> (r matches Err(e) && e is InternalError),
{
    let parsed = parse_api_response(reply_text)?;
    match parsed.0 {
        ReplyCode::Okay => Ok(parsed.1),
        ReplyCode::Failure => Err(EslError::AuthFailed),
        ReplyCode::Unknown => Err(
            EslError::InternalError(String::from_str("unknown code in authentication reply")),
        ),
    }
}

} // verus!
