use vstd::prelude::*;
use vstd::string::StringSliceAdditionalSpecFns;
use vstd::utf8::{decode_utf8, encode_utf8_decode_utf8};
use crate::event::lookup;
use crate::io::{
    body_type, content_length_key, content_type_key, decimal_value, decode_spec, find_term,
    headers_from, headers_only_type, lf, valid_length, Decoded,
};

verus! {

/// Two string literals with different characters have different bytes.
proof fn lemma_bytes_differ(a: &str, b: &str)
    requires
        a@ != b@,
    ensures
        a.spec_bytes() != b.spec_bytes(),
{
    encode_utf8_decode_utf8(a@);
    encode_utf8_decode_utf8(b@);
}

/// No content type both carries a body and carries headers only.
proof fn lemma_types_disjoint(c: Seq<u8>)
    ensures
        !(headers_only_type(c) && body_type(c)),
{
    reveal_strlit("auth/request");
    reveal_strlit("text/rude-rejection");
    reveal_strlit("command/reply");
    reveal_strlit("api/response");
    reveal_strlit("text/event-json");
    reveal_strlit("text/disconnect-notice");
    assert("auth/request"@[1] != "api/response"@[1]);
    assert("auth/request"@.len() != "text/event-json"@.len());
    assert("auth/request"@.len() != "text/disconnect-notice"@.len());
    assert("text/rude-rejection"@.len() != "api/response"@.len());
    assert("text/rude-rejection"@.len() != "text/event-json"@.len());
    assert("text/rude-rejection"@.len() != "text/disconnect-notice"@.len());
    assert("command/reply"@.len() != "api/response"@.len());
    assert("command/reply"@.len() != "text/event-json"@.len());
    assert("command/reply"@.len() != "text/disconnect-notice"@.len());
    lemma_bytes_differ("auth/request", "api/response");
    lemma_bytes_differ("auth/request", "text/event-json");
    lemma_bytes_differ("auth/request", "text/disconnect-notice");
    lemma_bytes_differ("text/rude-rejection", "api/response");
    lemma_bytes_differ("text/rude-rejection", "text/event-json");
    lemma_bytes_differ("text/rude-rejection", "text/disconnect-notice");
    lemma_bytes_differ("command/reply", "api/response");
    lemma_bytes_differ("command/reply", "text/event-json");
    lemma_bytes_differ("command/reply", "text/disconnect-notice");
}

/// A header block as a valid frame has it: not empty, not ending in a line
/// feed, and without two line feeds in a row.
pub open spec fn well_formed_block(block: Seq<u8>) -> bool {
    &&& block.len() > 0
    &&& block.last() != lf()
    &&& forall|i: int| 0 <= i < block.len() - 1 ==> !(#[trigger] block[i] == lf() && block[i + 1] == lf())
}

/// A valid frame with a body: its header block parses, names a content
/// type that carries a body, and a `Content-Length` equal to the length of
/// `body`.
pub open spec fn valid_body_frame(block: Seq<u8>, body: Seq<u8>) -> bool {
    &&& well_formed_block(block)
    &&& headers_from(block, 0) matches Some(h) && ({
        let ct = lookup(h, content_type_key());
        let cl = lookup(h, content_length_key());
        &&& ct matches Some(c) && body_type(c)
        &&& cl matches Some(l) && valid_length(l) && decimal_value(l) == body.len()
    })
}

/// The bytes of a frame on the wire: header block, blank line, body.
pub open spec fn frame_bytes(block: Seq<u8>, body: Seq<u8>) -> Seq<u8> {
    block + seq![lf(), lf()] + body
}

/// In a buffer that starts with a well-formed header block, the header
/// terminator is found right after the block, or not at all while the
/// buffer is too short to hold it.
proof fn lemma_term_after_block(block: Seq<u8>, s: Seq<u8>, i: int)
    requires
        well_formed_block(block),
        s.len() >= block.len(),
        s.subrange(0, block.len() as int) == block,
        0 <= i <= block.len(),
    ensures
        find_term(s, i) == find_term(s, block.len() as int),
    decreases block.len() - i,
{
    if i < block.len() {
        assert(s[i] == block[i]);
        if i + 1 < block.len() {
            assert(s[i + 1] == block[i + 1]);
        }
        lemma_term_after_block(block, s, i + 1);
    }
}

/// Decoding a buffer that holds a valid frame with a body and then any
/// further bytes gives that frame, with exactly its body, and takes exactly
/// its bytes, so that what follows stays for the next decode.
pub proof fn lemma_round_trip(block: Seq<u8>, body: Seq<u8>, rest: Seq<u8>)
    requires
        valid_body_frame(block, body),
    ensures
        ({
            let s = frame_bytes(block, body) + rest;
            let used = frame_bytes(block, body).len() as int;
            &&& decode_spec(s) == Decoded::Complete {
                headers: headers_from(block, 0)->Some_0,
                body: Some(body),
                used,
            }
            &&& s.subrange(used, s.len() as int) == rest
        }),
{
    let s = frame_bytes(block, body) + rest;
    let k = block.len() as int;
    assert(s.subrange(0, k) =~= block);
    lemma_term_after_block(block, s, 0);
    assert(s[k] == lf() && s[k + 1] == lf());
    assert(find_term(s, 0) == Some(k));
    let h = headers_from(block, 0)->Some_0;
    lemma_types_disjoint(lookup(h, content_type_key())->Some_0);
    assert(s.subrange(k + 2, k + 2 + body.len()) =~= body);
    assert(s.subrange(k + 2 + body.len(), s.len() as int) =~= rest);
}

/// Decoding any proper prefix of a valid frame with a body, cut inside the
/// header block, the blank line or the body, asks for more bytes, and so
/// takes none.
pub proof fn lemma_partial_input(block: Seq<u8>, body: Seq<u8>, m: int)
    requires
        valid_body_frame(block, body),
        0 <= m < frame_bytes(block, body).len(),
    ensures
        decode_spec(frame_bytes(block, body).subrange(0, m)) == Decoded::Incomplete,
{
    let p = frame_bytes(block, body).subrange(0, m);
    let k = block.len() as int;
    if m < k + 2 {
        if m >= k {
            assert(p.subrange(0, k) =~= block);
            lemma_term_after_block(block, p, 0);
        } else {
            assert(p =~= block.subrange(0, m));
            lemma_no_term_in_prefix(block, p, 0);
        }
    } else {
        assert(p.subrange(0, k) =~= block);
        lemma_term_after_block(block, p, 0);
        assert(p[k] == lf() && p[k + 1] == lf());
        let h = headers_from(block, 0)->Some_0;
        assert(p.subrange(0, k) =~= block);
        lemma_types_disjoint(lookup(h, content_type_key())->Some_0);
    }
}

/// A cut of a well-formed header block holds no header terminator.
proof fn lemma_no_term_in_prefix(block: Seq<u8>, p: Seq<u8>, i: int)
    requires
        well_formed_block(block),
        p.len() < block.len(),
        p == block.subrange(0, p.len() as int),
        0 <= i,
    ensures
        find_term(p, i) is None,
    decreases p.len() - i,
{
    if i + 1 < p.len() {
        assert(p[i] == block[i] && p[i + 1] == block[i + 1]);
        lemma_no_term_in_prefix(block, p, i + 1);
    }
}

} // verus!
