use vstd::prelude::*;
use vstd::string::StringSliceAdditionalSpecFns;
use crate::bytes::{append_bytes, bytes_eq, slice_to_vec};
use crate::code::is_ws;
use crate::error::{EslError, ProtocolFault};
use crate::text::{lossy_of, lossy_string};
use crate::event::{lookup, pairs_view, Event, HeadersView, lookup_pairs};

verus! {

/// The line feed byte.
pub open spec fn lf() -> u8 {
    10u8
}

/// The first index at or after `i` where `s` holds `b`, or the length.
pub open spec fn index_from(s: Seq<u8>, b: u8, i: int) -> int
    decreases s.len() - i,
{
    if i < 0 || i >= s.len() {
        s.len() as int
    } else if s[i] == b {
        i
    } else {
        index_from(s, b, i + 1)
    }
}

/// The first index at or after `i` where two line feeds follow each other.
pub open spec fn find_term(s: Seq<u8>, i: int) -> Option<int>
    decreases s.len() - i,
{
    if i < 0 || i + 1 >= s.len() {
        None
    } else if s[i] == lf() && s[i + 1] == lf() {
        Some(i)
    } else {
        find_term(s, i + 1)
    }
}

/// `l` without its leading whitespace.
pub open spec fn trim_front(l: Seq<u8>) -> Seq<u8>
    decreases l.len(),
{
    if l.len() > 0 && is_ws(l[0]) {
        trim_front(l.drop_first())
    } else {
        l
    }
}

/// `l` without its trailing whitespace.
pub open spec fn trim_back(l: Seq<u8>) -> Seq<u8>
    decreases l.len(),
{
    if l.len() > 0 && is_ws(l.last()) {
        trim_back(l.drop_last())
    } else {
        l
    }
}

/// `l` without whitespace at either end.
pub open spec fn trim(l: Seq<u8>) -> Seq<u8> {
    trim_back(trim_front(l))
}

/// A header line split at its first colon, both sides trimmed.
pub open spec fn parse_line(l: Seq<u8>) -> Option<(Seq<u8>, Seq<u8>)> {
    let c = index_from(l, 58u8, 0);
    if c >= l.len() {
        None
    } else {
        Some((trim(l.subrange(0, c)), trim(l.subrange(c + 1, l.len() as int))))
    }
}

/// Where the line that starts at `start` ends.
pub open spec fn line_end(s: Seq<u8>, start: int) -> int {
    start + index_from(s.subrange(start, s.len() as int), lf(), 0)
}

/// The headers of the lines of `s` from `start` on; `None` where one of
/// them holds no colon.
pub open spec fn headers_from(s: Seq<u8>, start: int) -> Option<HeadersView>
    decreases s.len() - start via headers_from_decreases
{
    if start < 0 || start > s.len() {
        None
    } else {
        let e = line_end(s, start);
        match parse_line(s.subrange(start, e)) {
            None => None,
            Some(kv) => if e >= s.len() {
                Some(seq![kv])
            } else {
                match headers_from(s, e + 1) {
                    None => None,
                    Some(rest) => Some(seq![kv] + rest),
                }
            },
        }
    }
}

/// The first index at or after `i` that holds `b` lies between `i` and
/// the length.
pub proof fn lemma_index_from_bounds(s: Seq<u8>, b: u8, i: int)
    requires
        0 <= i <= s.len(),
    ensures
        i <= index_from(s, b, i) <= s.len(),
        index_from(s, b, i) < s.len() ==> s[index_from(s, b, i)] == b,
    decreases s.len() - i,
{
    if i < s.len() && s[i] != b {
        lemma_index_from_bounds(s, b, i + 1);
    }
}

#[via_fn]
proof fn headers_from_decreases(s: Seq<u8>, start: int) {
    if 0 <= start <= s.len() {
        lemma_index_from_bounds(s.subrange(start, s.len() as int), lf(), 0);
    }
}

/// Whether `s` is a non-empty run of ASCII digits.
pub open spec fn all_digits(s: Seq<u8>) -> bool {
    s.len() > 0 && forall|i: int| 0 <= i < s.len() ==> 48 <= #[trigger] s[i] <= 57
}

/// The number that a run of decimal digits writes.
pub open spec fn decimal_value(s: Seq<u8>) -> int
    decreases s.len(),
{
    if s.len() == 0 {
        0
    } else {
        decimal_value(s.drop_last()) * 10 + (s.last() - 48)
    }
}

/// Whether `s` writes a length that fits in memory.
pub open spec fn valid_length(s: Seq<u8>) -> bool {
    all_digits(s) && decimal_value(s) <= usize::MAX
}

/// `Content-Type`
pub open spec fn content_type_key() -> Seq<u8> {
    "Content-Type".spec_bytes()
}

/// `Content-Length`
pub open spec fn content_length_key() -> Seq<u8> {
    "Content-Length".spec_bytes()
}

/// The content types whose frames carry headers only.
pub open spec fn headers_only_type(ct: Seq<u8>) -> bool {
    ct == "auth/request".spec_bytes() || ct == "text/rude-rejection".spec_bytes()
        || ct == "command/reply".spec_bytes()
}

/// The content types whose frames carry a body of `Content-Length` bytes.
pub open spec fn body_type(ct: Seq<u8>) -> bool {
    ct == "api/response".spec_bytes() || ct == "text/event-json".spec_bytes()
        || ct == disconnect_type()
}

/// `text/disconnect-notice`, which may come with or without a body.
pub open spec fn disconnect_type() -> Seq<u8> {
    "text/disconnect-notice".spec_bytes()
}

/// What one decoding step makes of a buffer.
pub enum Decoded {
    /// The buffer does not yet hold a whole frame.
    Incomplete,
    /// A frame, and the number of bytes it takes.
    Complete { headers: HeadersView, body: Option<Seq<u8>>, used: int },
    /// The buffer starts with a frame that breaks the protocol.
    Malformed(ProtocolFault),
}

/// The outcome of decoding the frame at the start of `s`.
pub open spec fn decode_spec(s: Seq<u8>) -> Decoded {
    match find_term(s, 0) {
        None => Decoded::Incomplete,
        Some(x) => match headers_from(s.subrange(0, x), 0) {
            None => Decoded::Malformed(ProtocolFault::BadHeaderLine),
            Some(h) => match lookup(h, content_type_key()) {
                None => Decoded::Malformed(ProtocolFault::MissingContentType),
                Some(ct) => if headers_only_type(ct) {
                    Decoded::Complete { headers: h, body: None, used: x + 2 }
                } else if body_type(ct) {
                    match lookup(h, content_length_key()) {
                        None => if ct == disconnect_type() {
                            Decoded::Complete { headers: h, body: None, used: x + 2 }
                        } else {
                            Decoded::Malformed(ProtocolFault::MissingContentLength)
                        },
                        Some(cl) => if !valid_length(cl) {
                            Decoded::Malformed(ProtocolFault::BadContentLength)
                        } else if x + 2 + decimal_value(cl) <= s.len() {
                            Decoded::Complete {
                                headers: h,
                                body: Some(s.subrange(x + 2, x + 2 + decimal_value(cl))),
                                used: x + 2 + decimal_value(cl),
                            }
                        } else {
                            Decoded::Incomplete
                        },
                    }
                } else {
                    Decoded::Malformed(ProtocolFault::UnknownContentType)
                },
            },
        },
    }
}

/// The index of the first byte `b` in `s[start..end]`, or `end`.
pub fn find_byte(s: &[u8], b: u8, start: usize, end: usize) -> (r: usize)
    requires
        start <= end <= s@.len(),
    ensures
        r == start + index_from(s@.subrange(start as int, end as int), b, 0),
        start <= r <= end,
{
    let ghost sub = s@.subrange(start as int, end as int);
    let mut i: usize = start;
    while i < end
        invariant
            start <= i <= end <= s@.len(),
            sub == s@.subrange(start as int, end as int),
            index_from(sub, b, 0) == index_from(sub, b, i - start),
        decreases end - i,
    {
        if s[i] == b {
            return i;
        }
        i = i + 1;
    }
    i
}

/// The index where the header block ends: the first of two line feeds
/// that follow each other.
pub fn get_header_end(src: &[u8]) -> (r: Option<usize>)
    ensures
        match r {
            Some(x) => find_term(src@, 0) == Some(x as int),
            None => find_term(src@, 0) is None,
        },
{
    let mut i: usize = 0;
    while src.len() - i > 1
        invariant
            0 <= i <= src@.len(),
            find_term(src@, 0) == find_term(src@, i as int),
        decreases src@.len() - i,
    {
        if src[i] == 10 && src[i + 1] == 10 {
            return Some(i);
        }
        i = i + 1;
    }
    None
}

/// The bounds of `s[a..e]` without whitespace at either end.
pub fn trim_bounds(s: &[u8], a: usize, e: usize) -> (r: (usize, usize))
    requires
        a <= e <= s@.len(),
    ensures
        a <= r.0 <= r.1 <= e,
        s@.subrange(r.0 as int, r.1 as int) == trim(s@.subrange(a as int, e as int)),
{
    let mut i: usize = a;
    while i < e && (s[i] == 32 || s[i] == 9 || s[i] == 10 || s[i] == 11 || s[i] == 12 || s[i] == 13)
        invariant
            a <= i <= e <= s@.len(),
            trim_front(s@.subrange(a as int, e as int)) == trim_front(s@.subrange(i as int, e as int)),
        decreases e - i,
    {
        assert(s@.subrange(i as int, e as int).drop_first() =~= s@.subrange(i + 1, e as int));
        i = i + 1;
    }
    assert(trim_front(s@.subrange(i as int, e as int)) == s@.subrange(i as int, e as int));
    let mut j: usize = e;
    while j > i && (s[j - 1] == 32 || s[j - 1] == 9 || s[j - 1] == 10 || s[j - 1] == 11 || s[j - 1]
        == 12 || s[j - 1] == 13)
        invariant
            a <= i <= j <= e <= s@.len(),
            trim(s@.subrange(a as int, e as int)) == trim_back(s@.subrange(i as int, j as int)),
        decreases j - i,
    {
        assert(s@.subrange(i as int, j as int).drop_last() =~= s@.subrange(i as int, j - 1));
        j = j - 1;
    }
    (i, j)
}

/// Splits a header block into its lines, each at its first colon, both
/// sides trimmed. A line without a colon is refused.
pub fn parse_header(src: &[u8]) -> (r: Result<Vec<(Vec<u8>, Vec<u8>)>, EslError>)
    ensures
        match headers_from(src@, 0) {
            None => r == Err::<Vec<(Vec<u8>, Vec<u8>)>, EslError>(
                EslError::ProtocolError(ProtocolFault::BadHeaderLine),
            ),
            Some(h) => r is Ok && pairs_view(r->Ok_0@) == h,
        },
{
    let mut out: Vec<(Vec<u8>, Vec<u8>)> = Vec::new();
    let mut start: usize = 0;
    loop
        invariant
            0 <= start <= src@.len(),
            headers_from(src@, 0) == match headers_from(src@, start as int) {
                None => None::<HeadersView>,
                Some(rest) => Some(pairs_view(out@) + rest),
            },
        decreases src@.len() - start,
    {
        let e = find_byte(src, 10, start, src.len());
        let ghost line = src@.subrange(start as int, e as int);
        assert(e == line_end(src@, start as int));
        let c = find_byte(src, 58, start, e);
        assert(c - start == index_from(line, 58u8, 0));
        if c == e {
            return Err(EslError::ProtocolError(ProtocolFault::BadHeaderLine));
        }
        let (ka, kb) = trim_bounds(src, start, c);
        let (va, vb) = trim_bounds(src, c + 1, e);
        assert(line.subrange(0, c - start) =~= src@.subrange(start as int, c as int));
        assert(line.subrange(c - start + 1, line.len() as int) =~= src@.subrange(c + 1, e as int));
        let key = slice_to_vec(src, ka, kb);
        let val = slice_to_vec(src, va, vb);
        let ghost kv = (key@, val@);
        let ghost before = out@;
        out.push((key, val));
        assert(pairs_view(out@) =~= pairs_view(before).push(kv));
        if e == src.len() {
            assert(pairs_view(before) + seq![kv] =~= pairs_view(out@));
            return Ok(out);
        }
        proof {
            let rest = headers_from(src@, e + 1);
            if let Some(r) = rest {
                assert(pairs_view(before) + (seq![kv] + r) =~= pairs_view(out@) + r);
            }
        }
        start = e + 1;
    }
}

/// Two line feeds that follow each other lie inside the sequence.
pub proof fn lemma_find_term_bounds(s: Seq<u8>, i: int)
    requires
        0 <= i,
    ensures
        find_term(s, i) matches Some(x) ==> i <= x && x + 1 < s.len() && s[x] == lf() && s[x + 1]
            == lf(),
    decreases s.len() - i,
{
    if i + 1 < s.len() && !(s[i] == lf() && s[i + 1] == lf()) {
        lemma_find_term_bounds(s, i + 1);
    }
}

/// A longer prefix of a run of digits writes no smaller number.
pub proof fn lemma_decimal_prefix(s: Seq<u8>, i: int, j: int)
    requires
        0 <= i <= j <= s.len(),
        forall|k: int| 0 <= k < s.len() ==> 48 <= #[trigger] s[k] <= 57,
    ensures
        0 <= decimal_value(s.subrange(0, i)) <= decimal_value(s.subrange(0, j)),
    decreases j,
{
    if j > 0 {
        assert(s.subrange(0, j).drop_last() =~= s.subrange(0, j - 1));
        if i < j {
            lemma_decimal_prefix(s, i, j - 1);
        } else {
            lemma_decimal_prefix(s, i - 1, j - 1);
        }
    }
}

/// Reads a `Content-Length` value: a non-empty run of ASCII digits whose
/// number fits in `usize`.
pub fn parse_length(s: &[u8]) -> (r: Option<usize>)
    ensures
        match r {
            Some(n) => valid_length(s@) && n == decimal_value(s@),
            None => !valid_length(s@),
        },
{
    if s.len() == 0 {
        return None;
    }
    let mut v: usize = 0;
    let mut i: usize = 0;
    while i < s.len()
        invariant
            0 <= i <= s@.len(),
            forall|k: int| 0 <= k < i ==> 48 <= #[trigger] s@[k] <= 57,
            v == decimal_value(s@.subrange(0, i as int)),
        decreases s@.len() - i,
    {
        let b = s[i];
        if b < 48 || b > 57 {
            assert(!all_digits(s@));
            return None;
        }
        assert(s@.subrange(0, i + 1).drop_last() =~= s@.subrange(0, i as int));
        let ghost next = v * 10 + (b - 48);
        assert(decimal_value(s@.subrange(0, i + 1)) == next);
        match v.checked_mul(10) {
            None => {
                proof {
                    if all_digits(s@) {
                        lemma_decimal_prefix(s@, i + 1, s@.len() as int);
                        assert(s@.subrange(0, s@.len() as int) =~= s@);
                    }
                }
                return None;
            },
            Some(t) => match t.checked_add((b - 48) as usize) {
                None => {
                    proof {
                        if all_digits(s@) {
                            lemma_decimal_prefix(s@, i + 1, s@.len() as int);
                            assert(s@.subrange(0, s@.len() as int) =~= s@);
                        }
                    }
                    return None;
                },
                Some(w) => {
                    v = w;
                },
            },
        }
        i = i + 1;
    }
    assert(s@.subrange(0, i as int) =~= s@);
    Some(v)
}

/// Copies the `length` body bytes that follow the two line feeds at the
/// start of `src`.
pub fn parse_body(src: &[u8], length: usize) -> (r: Vec<u8>)
    requires
        length + 2 <= src@.len(),
    ensures
        r@ == src@.subrange(2, length + 2),
{
    assert(src@.len() == src.len());
    slice_to_vec(src, 2, length + 2)
}

/// Decodes the frame at the start of `src`, giving it with the number of
/// bytes it takes; `None` where `src` does not yet hold a whole frame.
pub fn decode_frame(src: &[u8]) -> (r: Result<Option<(Event, usize)>, EslError>)
    ensures
        match decode_spec(src@) {
            Decoded::Incomplete => r == Ok::<Option<(Event, usize)>, EslError>(None),
            Decoded::Complete { headers, body, used } => r is Ok && r->Ok_0 is Some && ({
                let (e, n) = r->Ok_0->Some_0;
                e.headers_view() == headers && e.body_view() == body && n == used
            }),
            Decoded::Malformed(f) => r == Err::<Option<(Event, usize)>, EslError>(
                EslError::ProtocolError(f),
            ),
        },
        r matches Ok(Some((_, n))) ==> n <= src@.len(),
        match decode_spec(src@) {
            Decoded::Complete { used, .. } => used <= src@.len(),
            _ => true,
        },
{
    let x = match get_header_end(src) {
        None => return Ok(None),
        Some(x) => x,
    };
    proof {
        lemma_find_term_bounds(src@, 0);
    }
    assert(src@.len() == src.len());
    let block = slice_to_vec(src, 0, x);
    let headers = match parse_header(block.as_slice()) {
        Err(e) => return Err(e),
        Ok(h) => h,
    };
    let ghost h = pairs_view(headers@);
    let used = x + 2;
    let ct = match lookup_pairs(&headers, "Content-Type".as_bytes()) {
        None => return Err(EslError::ProtocolError(ProtocolFault::MissingContentType)),
        Some(ct) => ct,
    };
    if bytes_eq(ct.as_slice(), "auth/request".as_bytes()) || bytes_eq(
        ct.as_slice(),
        "text/rude-rejection".as_bytes(),
    ) || bytes_eq(ct.as_slice(), "command/reply".as_bytes()) {
        return Ok(Some((Event { headers, body: None }, used)));
    }
    let is_disconnect = bytes_eq(ct.as_slice(), "text/disconnect-notice".as_bytes());
    if !(is_disconnect || bytes_eq(ct.as_slice(), "api/response".as_bytes()) || bytes_eq(
        ct.as_slice(),
        "text/event-json".as_bytes(),
    )) {
        return Err(EslError::ProtocolError(ProtocolFault::UnknownContentType));
    }
    let n = match lookup_pairs(&headers, "Content-Length".as_bytes()) {
        None => {
            if is_disconnect {
                return Ok(Some((Event { headers, body: None }, used)));
            }
            return Err(EslError::ProtocolError(ProtocolFault::MissingContentLength));
        },
        Some(cl) => match parse_length(cl.as_slice()) {
            None => return Err(EslError::ProtocolError(ProtocolFault::BadContentLength)),
            Some(n) => n,
        },
    };
    if src.len() - used < n {
        return Ok(None);
    }
    let body = slice_to_vec(src, used, used + n);
    Ok(Some((Event { headers, body: Some(body) }, used + n)))
}

/// The codec of the protocol: frames in, command bytes out.
#[derive(Clone, Copy, Debug)]
pub struct EslCodec {}

impl EslCodec {
    /// Takes the frame at the start of `src` out of it. Where `src` does not
    /// yet hold a whole frame, or starts with a malformed one, it is left as
    /// it is.
    pub fn decode(&mut self, src: &mut Vec<u8>) -> (r: Result<Option<Event>, EslError>)
        ensures
            match decode_spec(old(src)@) {
                Decoded::Incomplete => r == Ok::<Option<Event>, EslError>(None) && final(src)@
                    == old(src)@,
                Decoded::Complete { headers, body, used } => r is Ok && r->Ok_0 is Some && ({
                    let e = r->Ok_0->Some_0;
                    e.headers_view() == headers && e.body_view() == body
                }) && final(src)@ == old(src)@.subrange(used, old(src)@.len() as int),
                Decoded::Malformed(f) => r == Err::<Option<Event>, EslError>(
                    EslError::ProtocolError(f),
                ) && final(src)@ == old(src)@,
            },
    {
        match decode_frame(src.as_slice()) {
            Err(e) => Err(e),
            Ok(None) => Ok(None),
            Ok(Some((event, used))) => {
                let rest = slice_to_vec(src.as_slice(), used, src.len());
                *src = rest;
                Ok(Some(event))
            },
        }
    }

    /// Appends a command's bytes to `dst` as they are.
    pub fn encode(&mut self, item: &[u8], dst: &mut Vec<u8>)
        ensures
            final(dst)@ == old(dst)@ + item@,
    {
        append_bytes(dst, item);
    }
}

/// The replies that a simple client waits for.
#[derive(Clone, Debug, PartialEq, Eq, PartialOrd, Ord)]
pub enum InboundResponse {
    /// The server asks for the password.
    Auth,
    /// A command reply, with its reply text.
    Reply(String),
    /// An api response or an event, with its body.
    ApiResponse(String),
}

/// The bytes of an optional value, empty where it is absent.
pub open spec fn or_empty(v: Option<Seq<u8>>) -> Seq<u8> {
    match v {
        Some(b) => b,
        None => Seq::empty(),
    }
}

impl InboundResponse {
    /// What a simple client makes of a frame: a password request, a command
    /// reply with its `Reply-Text`, or an api response or event with its
    /// body; `None` for any other frame.
    pub fn from_event(e: &Event) -> (r: Option<InboundResponse>)
        ensures
            ({
                let ct = lookup(e.headers_view(), content_type_key());
                if ct == Some("auth/request".spec_bytes()) {
                    r == Some(InboundResponse::Auth)
                } else if ct == Some("command/reply".spec_bytes()) {
                    r matches Some(InboundResponse::Reply(t)) && t@ == lossy_of(
                        or_empty(lookup(e.headers_view(), "Reply-Text".spec_bytes())),
                    )
                } else if ct == Some("api/response".spec_bytes()) || ct == Some(
                    "text/event-json".spec_bytes(),
                ) {
                    r matches Some(InboundResponse::ApiResponse(t)) && t@ == lossy_of(
                        or_empty(e.body_view()),
                    )
                } else {
                    r is None
                }
            }),
    {
        let empty: Vec<u8> = Vec::new();
        let ct = match e.header("Content-Type".as_bytes()) {
            None => return None,
            Some(c) => c,
        };
        if bytes_eq(ct.as_slice(), "auth/request".as_bytes()) {
            Some(InboundResponse::Auth)
        } else if bytes_eq(ct.as_slice(), "command/reply".as_bytes()) {
            let t = match e.header("Reply-Text".as_bytes()) {
                Some(t) => t,
                None => &empty,
            };
            Some(InboundResponse::Reply(lossy_string(t.as_slice())))
        } else if bytes_eq(ct.as_slice(), "api/response".as_bytes()) || bytes_eq(
            ct.as_slice(),
            "text/event-json".as_bytes(),
        ) {
            let b = match e.body() {
                Some(b) => b,
                None => &empty,
            };
            Some(InboundResponse::ApiResponse(lossy_string(b.as_slice())))
        } else {
            None
        }
    }
}

} // verus!
