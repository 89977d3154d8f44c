use vstd::prelude::*;
use crate::bytes::{bytes_eq, slice_to_vec};
use crate::error::{EslError, ProtocolFault};
use crate::text::{lossy_of, lossy_string};

verus! {

/// The status token that opens a reply's text.
#[derive(Clone, Copy, Debug, PartialEq, Eq, Structural)]
pub enum Code {
    /// `+OK`
    Okay,
    /// `-ERR`
    Error,
    /// Any other token.
    Unknown,
}

/// The bytes of the success token `+OK`.
pub open spec fn ok_token() -> Seq<u8> {
    seq![43u8, 79u8, 75u8]
}

/// The bytes of the failure token `-ERR`.
pub open spec fn err_token() -> Seq<u8> {
    seq![45u8, 69u8, 82u8, 82u8]
}

/// Whitespace as the status line knows it: space, tab, line feed,
/// vertical tab, form feed and carriage return.
pub open spec fn is_ws(b: u8) -> bool {
    b == 32 || b == 9 || b == 10 || b == 11 || b == 12 || b == 13
}

/// The first index at or after `i` that holds whitespace, or the length.
pub open spec fn first_ws_from(s: Seq<u8>, i: int) -> int
    decreases s.len() - i,
{
    if i < 0 || i >= s.len() {
        s.len() as int
    } else if is_ws(s[i]) {
        i
    } else {
        first_ws_from(s, i + 1)
    }
}

/// The status that a token stands for.
pub open spec fn code_of(token: Seq<u8>) -> Code {
    if token == ok_token() {
        Code::Okay
    } else if token == err_token() {
        Code::Error
    } else {
        Code::Unknown
    }
}

/// The message of a status line whose token ends at `k`: what follows the
/// whitespace, without the final terminator byte.
pub open spec fn status_text(s: Seq<u8>, k: int) -> Seq<u8> {
    if k + 1 < s.len() {
        s.subrange(k + 1, s.len() - 1)
    } else {
        Seq::empty()
    }
}

/// Reads the status of a token.
pub fn parse_code(token: &[u8]) -> (r: Code)
    ensures
        r == code_of(token@),
{
    let ok: [u8; 3] = [43u8, 79u8, 75u8];
    let err: [u8; 4] = [45u8, 69u8, 82u8, 82u8];
    assert(ok@ =~= ok_token());
    assert(err@ =~= err_token());
    if bytes_eq(token, &ok) {
        Code::Okay
    } else if bytes_eq(token, &err) {
        Code::Error
    } else {
        Code::Unknown
    }
}

/// Finds the first whitespace byte of `s`, if any.
pub fn find_ws(s: &[u8]) -> (r: Option<usize>)
    ensures
        match r {
            Some(k) => k == first_ws_from(s@, 0) && k < s@.len(),
            None => first_ws_from(s@, 0) == s@.len(),
        },
{
    let mut i: usize = 0;
    while i < s.len()
        invariant
            0 <= i <= s@.len(),
            first_ws_from(s@, 0) == first_ws_from(s@, i as int),
        decreases s@.len() - i,
    {
        let b = s[i];
        if b == 32 || b == 9 || b == 10 || b == 11 || b == 12 || b == 13 {
            return Some(i);
        }
        i = i + 1;
    }
    None
}

/// Splits a status line into its status and its message.
///
/// The token ends at the first whitespace byte; the message is what follows
/// that byte without the line's final terminator byte, and empty where
/// nothing follows. A line without whitespace is refused.
pub fn parse_api_response(body: &[u8]) -> (r: Result<(Code, String), EslError>)
    ensures
        first_ws_from(body@, 0) == body@.len() ==> r == Err::<(Code, String), EslError>(
            EslError::ProtocolError(ProtocolFault::MissingStatus),
        ),
        first_ws_from(body@, 0) != body@.len() ==> r is Ok && ({
            let k = first_ws_from(body@, 0);
            &&& r->Ok_0.0 == code_of(body@.subrange(0, k))
            &&& r->Ok_0.1@ == lossy_of(status_text(body@, k))
        }),
{
    match find_ws(body) {
        None => Err(EslError::ProtocolError(ProtocolFault::MissingStatus)),
        Some(k) => {
            let token = slice_to_vec(body, 0, k);
            let code = parse_code(token.as_slice());
            let text_bytes = if body.len() - k > 1 {
                slice_to_vec(body, k + 1, body.len() - 1)
            } else {
                Vec::new()
            };
            assert(text_bytes@ =~= status_text(body@, k as int));
            let text = lossy_string(text_bytes.as_slice());
            Ok((code, text))
        },
    }
}

} // verus!
