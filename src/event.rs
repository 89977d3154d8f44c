use vstd::prelude::*;
use crate::bytes::bytes_eq;

verus! {

/// A header list as plain byte sequences, in the order of the wire.
pub type HeadersView = Seq<(Seq<u8>, Seq<u8>)>;

/// The value of `key` in `h`: the last line that names it wins.
pub open spec fn lookup(h: HeadersView, key: Seq<u8>) -> Option<Seq<u8>>
    decreases h.len(),
{
    if h.len() == 0 {
        None
    } else if h.last().0 == key {
        Some(h.last().1)
    } else {
        lookup(h.drop_last(), key)
    }
}

/// One decoded protocol frame: its header lines and, for the body-bearing
/// content types, the raw body.
#[derive(Clone, Debug, PartialEq, Eq)]
pub struct Event {
    /// Header names and values, trimmed, in the order they arrived.
    pub headers: Vec<(Vec<u8>, Vec<u8>)>,
    /// The body, where the content type carries one.
    pub body: Option<Vec<u8>>,
}

/// The view of a list of header pairs.
pub open spec fn pairs_view(v: Seq<(Vec<u8>, Vec<u8>)>) -> HeadersView {
    Seq::new(v.len(), |i: int| (v[i].0@, v[i].1@))
}

/// The view of an optional byte vector.
pub open spec fn opt_bytes_view(b: Option<Vec<u8>>) -> Option<Seq<u8>> {
    match b {
        Some(v) => Some(v@),
        None => None,
    }
}

/// Finds the value of `key` among `headers`, the last line winning.
pub fn lookup_pairs<'a>(headers: &'a Vec<(Vec<u8>, Vec<u8>)>, key: &[u8]) -> (r: Option<&'a Vec<u8>>)
    ensures
        match r {
            Some(v) => lookup(pairs_view(headers@), key@) == Some(v@),
            None => lookup(pairs_view(headers@), key@) is None,
        },
{
    let mut i: usize = headers.len();
    assert(pairs_view(headers@).subrange(0, i as int) =~= pairs_view(headers@));
    while i > 0
        invariant
            0 <= i <= headers@.len(),
            lookup(pairs_view(headers@), key@) == lookup(pairs_view(headers@).subrange(0, i as int), key@),
        decreases i,
    {
        let ghost h = pairs_view(headers@).subrange(0, i as int);
        assert(h.drop_last() =~= pairs_view(headers@).subrange(0, i - 1));
        if bytes_eq(headers[i - 1].0.as_slice(), key) {
            return Some(&headers[i - 1].1);
        }
        i = i - 1;
    }
    None
}

impl Event {
    /// The header lines as byte sequences.
    pub open spec fn headers_view(&self) -> HeadersView {
        pairs_view(self.headers@)
    }

    /// The body as a byte sequence.
    pub open spec fn body_view(&self) -> Option<Seq<u8>> {
        opt_bytes_view(self.body)
    }

    /// The value of a header, the last line that names it winning.
    pub fn header(&self, key: &[u8]) -> (r: Option<&Vec<u8>>)
        ensures
            match r {
                Some(v) => lookup(self.headers_view(), key@) == Some(v@),
                None => lookup(self.headers_view(), key@) is None,
            },
    {
        lookup_pairs(&self.headers, key)
    }

    /// The body, where the frame carries one.
    pub fn body(&self) -> (r: Option<&Vec<u8>>)
        ensures
            match r {
                Some(b) => self.body_view() == Some(b@),
                None => self.body_view() is None,
            },
    {
        self.body.as_ref()
    }
}

} // verus!
