use vstd::prelude::*;
use vstd::utf8::encode_utf8;
use crate::code::{code_of, first_ws_from, parse_api_response, status_text, Code};
use crate::error::{EslError, ProtocolFault};
use crate::event::Event;
use crate::json::{json_field, json_field_of};
use crate::text::{lossy_of, lossy_string};

verus! {

/// What a command returns for a status line `s`: the message of `+OK`,
/// an `ApiError` with the message of `-ERR`, and the whole line, read as
/// `unknown`, for any other token.
pub open spec fn status_outcome(s: Seq<u8>, unknown: Seq<char>, r: Result<String, EslError>) -> bool {
    let k = first_ws_from(s, 0);
    if k == s.len() {
        r == Err::<String, EslError>(EslError::ProtocolError(ProtocolFault::MissingStatus))
    } else {
        match code_of(s.subrange(0, k)) {
            Code::Okay => r is Ok && r->Ok_0@ == lossy_of(status_text(s, k)),
            Code::Error => r is Err && r->Err_0 is ApiError && r->Err_0->ApiError_0@ == lossy_of(
                status_text(s, k),
            ),
            Code::Unknown => r is Ok && r->Ok_0@ == unknown,
        }
    }
}

/// Turns a status line into a command's result.
pub fn status_result(line: &[u8]) -> (r: Result<String, EslError>)
    ensures
        status_outcome(line@, lossy_of(line@), r),
{
    match parse_api_response(line) {
        Err(e) => Err(e),
        Ok((Code::Okay, text)) => Ok(text),
        Ok((Code::Error, text)) => Err(EslError::ApiError(text)),
        Ok((Code::Unknown, _)) => Ok(lossy_string(line)),
    }
}

/// The result of an `api` command, read from its reply: the reply must
/// carry a body, which is a status line.
pub fn api_outcome(reply: &Event) -> (r: Result<String, EslError>)
    ensures
        match reply.body_view() {
            None => r == Err::<String, EslError>(EslError::ProtocolError(ProtocolFault::MissingBody)),
            Some(b) => status_outcome(b, lossy_of(b), r),
        },
{
    match reply.body() {
        None => Err(EslError::ProtocolError(ProtocolFault::MissingBody)),
        Some(b) => status_result(b.as_slice()),
    }
}

/// The result of a `bgapi` job, read from the event that completes it: the
/// `_body` field of the event's JSON body is a status line.
pub fn bgapi_outcome(event: &Event) -> (r: Result<String, EslError>)
    ensures
        match event.body_view() {
            None => r == Err::<String, EslError>(EslError::ProtocolError(ProtocolFault::MissingBody)),
            Some(b) => match json_field_of(b, "_body"@) {
                None => r == Err::<String, EslError>(
                    EslError::ProtocolError(ProtocolFault::MissingBody),
                ),
                Some(t) => status_outcome(encode_utf8(t), t, r),
            },
        },
{
    let body = match event.body() {
        None => return Err(EslError::ProtocolError(ProtocolFault::MissingBody)),
        Some(b) => b,
    };
    let text = match json_field(body.as_slice(), "_body") {
        None => return Err(EslError::ProtocolError(ProtocolFault::MissingBody)),
        Some(t) => t,
    };
    let line = text.as_str().as_bytes();
    let r = match parse_api_response(line) {
        Err(e) => Err(e),
        Ok((Code::Okay, t)) => Ok(t),
        Ok((Code::Error, t)) => Err(EslError::ApiError(t)),
        Ok((Code::Unknown, _)) => Ok(text),
    };
    r
}

} // verus!
