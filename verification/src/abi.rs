//! Flat ABI encoding of the canonical signing structure.
//!
//! The layout follows the standard contract ABI: values are 32-byte words;
//! dynamic values (strings, lists, the structs themselves) are encoded as a
//! head of value or offset words followed by the dynamic tails, offsets
//! counted in bytes from the start of the enclosing encoding; byte strings
//! carry a length word and are zero-padded to a word boundary.

use crate::encode::{push_bytes, push_u64_word, u64_word};
use crate::model::{RequestData, RequestDataV, RequestResponseData, RequestResponseDataV,
    ResponseData, ResponseDataV};
use vstd::prelude::*;
use vstd::utf8::encode_utf8;

verus! {

/// Zero bytes needed to pad `n` bytes to a word boundary.
pub open spec fn pad_of(n: nat) -> nat {
    if n % 32 == 0 {
        0
    } else {
        (32 - n % 32) as nat
    }
}

/// All-zero byte string.
pub open spec fn zeros(n: nat) -> Seq<u8> {
    Seq::new(n, |i: int| 0u8)
}

/// Encoding of a byte string: length word, bytes, zero padding.
pub open spec fn abi_bytes_enc(b: Seq<u8>) -> Seq<u8> {
    u64_word(b.len() as u64) + b + zeros(pad_of(b.len()))
}

/// Encoding of a string: its UTF-8 bytes as a byte string.
pub open spec fn abi_str_enc(s: Seq<char>) -> Seq<u8> {
    abi_bytes_enc(encode_utf8(s))
}

/// Concatenated encodings of a string list's elements.
pub open spec fn str_tails(a: Seq<Seq<char>>) -> Seq<u8>
    decreases a.len(),
{
    if a.len() == 0 {
        Seq::empty()
    } else {
        str_tails(a.drop_last()) + abi_str_enc(a.last())
    }
}

/// Offset words for the first `i` elements of a string list: each element's
/// offset is the head block (one word per element) plus the tails before it.
pub open spec fn str_heads_upto(a: Seq<Seq<char>>, i: int) -> Seq<u8>
    decreases i,
{
    if i <= 0 {
        Seq::empty()
    } else {
        str_heads_upto(a, i - 1) + u64_word(
            (32 * a.len() + str_tails(a.take(i - 1)).len()) as u64,
        )
    }
}

/// Encoding of a string list: length word, offset words, element tails.
pub open spec fn abi_str_array_enc(a: Seq<Seq<char>>) -> Seq<u8> {
    u64_word(a.len() as u64) + str_heads_upto(a, a.len() as int) + str_tails(a)
}

/// Encoding of the committed request fields: six offset words (all fields
/// are dynamic), then the fields' tails in order.
#[verifier::opaque]
pub open spec fn abi_request_enc(r: RequestDataV) -> Seq<u8> {
    let e0 = abi_str_enc(r.url);
    let e1 = abi_str_enc(r.method);
    let e2 = abi_str_array_enc(r.header_keys);
    let e3 = abi_str_array_enc(r.header_values);
    let e4 = abi_str_enc(r.body);
    let e5 = abi_str_array_enc(r.response_headers);
    u64_word(192) + u64_word((192 + e0.len()) as u64) + u64_word(
        (192 + e0.len() + e1.len()) as u64,
    ) + u64_word((192 + e0.len() + e1.len() + e2.len()) as u64) + u64_word(
        (192 + e0.len() + e1.len() + e2.len() + e3.len()) as u64,
    ) + u64_word((192 + e0.len() + e1.len() + e2.len() + e3.len() + e4.len()) as u64) + e0 + e1
        + e2 + e3 + e4 + e5
}

/// Encoding of the committed response fields: value words for the static
/// fields, offset words for the dynamic ones, then the dynamic tails.
#[verifier::opaque]
pub open spec fn abi_response_enc(r: ResponseDataV) -> Seq<u8> {
    let e2 = abi_str_array_enc(r.header_keys);
    let e3 = abi_str_array_enc(r.header_values);
    let e4 = abi_str_enc(r.body);
    u64_word(r.handler as u64) + u64_word(r.status as u64) + u64_word(192) + u64_word(
        (192 + e2.len()) as u64,
    ) + u64_word((192 + e2.len() + e3.len()) as u64) + u64_word(r.timestamp) + e2 + e3 + e4
}

/// Parameter encoding of the full signing structure: two offset words, then
/// the request and response encodings.
#[verifier::opaque]
pub open spec fn abi_params_enc(d: RequestResponseDataV) -> Seq<u8> {
    let er = abi_request_enc(d.request_data);
    u64_word(64) + u64_word((64 + er.len()) as u64) + er + abi_response_enc(d.response_data)
}

/// Tail length never shrinks as a list grows.
proof fn lemma_str_tails_monotone(a: Seq<Seq<char>>, i: int)
    requires
        0 <= i <= a.len(),
    ensures
        str_tails(a.take(i)).len() <= str_tails(a).len(),
    decreases a.len() - i,
{
    if i == a.len() {
        assert(a.take(i) =~= a);
    } else {
        lemma_str_tails_monotone(a, i + 1);
        assert(a.take(i + 1).drop_last() =~= a.take(i));
        assert(str_tails(a.take(i + 1)) == str_tails(a.take(i)) + abi_str_enc(a.take(i + 1).last()));
    }
}

/// Encodes a string: length word, UTF-8 bytes, zero padding.
fn abi_string(s: &String) -> (r: Vec<u8>)
    ensures
        r@ == abi_str_enc(s@),
{
    let b = s.as_str().as_bytes();
    let mut out: Vec<u8> = Vec::new();
    push_u64_word(&mut out, b.len() as u64);
    push_bytes(&mut out, b);
    let pad: usize = if b.len() % 32 == 0 {
        0
    } else {
        32 - b.len() % 32
    };
    let mut k: usize = 0;
    while k < pad
        invariant
            k <= pad,
            pad == pad_of(b@.len()),
            out@ == u64_word(b@.len() as u64) + b@ + zeros(k as nat),
        decreases pad - k,
    {
        out.push(0u8);
        proof {
            assert(u64_word(b@.len() as u64) + b@ + zeros((k + 1) as nat) =~= (u64_word(
                b@.len() as u64,
            ) + b@ + zeros(k as nat)).push(0u8));
        }
        k = k + 1;
    }
    proof {
        assert(out@ == abi_str_enc(s@));
    }
    out
}

/// Encodes a string list: length word, offset words, element tails.
fn abi_string_array(a: &Vec<String>) -> (r: Vec<u8>)
    requires
        abi_str_array_enc(a.deep_view()).len() <= u64::MAX,
    ensures
        r@ == abi_str_array_enc(a.deep_view()),
{
    let ghost dv = a.deep_view();
    // encode each element
    let mut encs: Vec<Vec<u8>> = Vec::new();
    let mut i: usize = 0;
    while i < a.len()
        invariant
            i <= a@.len(),
            a@.len() == dv.len(),
            dv == a.deep_view(),
            encs@.len() == i,
            forall|j: int| 0 <= j < i ==> #[trigger] encs@[j]@ == abi_str_enc(dv[j]),
        decreases a@.len() - i,
    {
        let e = abi_string(&a[i]);
        proof {
            assert(a@[i as int]@ == dv[i as int]);
        }
        encs.push(e);
        i = i + 1;
    }
    // total tail length bound, for the offset arithmetic
    proof {
        assert(abi_str_array_enc(dv).len() == 32 + str_heads_upto(dv, dv.len() as int).len()
            + str_tails(dv).len());
        lemma_str_heads_upto_len(dv, dv.len() as int);
    }
    let n = a.len();
    let mut out: Vec<u8> = Vec::new();
    push_u64_word(&mut out, n as u64);
    // offset words
    let mut off: u64 = 32 * (n as u64);
    proof {
        assert(dv.take(0) =~= Seq::<Seq<char>>::empty());
        assert(32 * dv.len() + str_tails(dv).len() <= u64::MAX);
    }
    let mut i: usize = 0;
    while i < n
        invariant
            i <= n,
            n == dv.len(),
            dv == a.deep_view(),
            encs@.len() == n,
            forall|j: int| 0 <= j < n ==> #[trigger] encs@[j]@ == abi_str_enc(dv[j]),
            off == 32 * dv.len() + str_tails(dv.take(i as int)).len(),
            32 * dv.len() + str_tails(dv).len() <= u64::MAX,
            out@ == u64_word(dv.len() as u64) + str_heads_upto(dv, i as int),
        decreases n - i,
    {
        push_u64_word(&mut out, off);
        proof {
            lemma_str_tails_monotone(dv, i + 1);
            assert(dv.take(i + 1).drop_last() =~= dv.take(i as int));
            assert(str_tails(dv.take(i + 1)) == str_tails(dv.take(i as int)) + abi_str_enc(
                dv[i as int],
            ));
            assert(encs@[i as int]@.len() == abi_str_enc(dv[i as int]).len());
        }
        off = off + (encs[i].len() as u64);
        i = i + 1;
    }
    // element tails
    let mut i: usize = 0;
    while i < n
        invariant
            i <= n,
            n == dv.len(),
            dv == a.deep_view(),
            encs@.len() == n,
            forall|j: int| 0 <= j < n ==> #[trigger] encs@[j]@ == abi_str_enc(dv[j]),
            out@ == u64_word(dv.len() as u64) + str_heads_upto(dv, dv.len() as int) + str_tails(
                dv.take(i as int),
            ),
        decreases n - i,
    {
        push_bytes(&mut out, encs[i].as_slice());
        proof {
            assert(dv.take(i + 1).drop_last() =~= dv.take(i as int));
            assert(str_tails(dv.take(i + 1)) == str_tails(dv.take(i as int)) + abi_str_enc(
                dv[i as int],
            ));
        }
        i = i + 1;
    }
    proof {
        assert(dv.take(dv.len() as int) =~= dv);
    }
    out
}

/// The head block of a string list is one word per element.
proof fn lemma_str_heads_upto_len(a: Seq<Seq<char>>, i: int)
    requires
        0 <= i <= a.len(),
    ensures
        str_heads_upto(a, i).len() == 32 * i,
    decreases i,
{
    if i > 0 {
        lemma_str_heads_upto_len(a, i - 1);
    }
}

/// Encodes the committed request fields.
fn abi_encode_request(r: &RequestData) -> (out: Vec<u8>)
    requires
        abi_request_enc(r@).len() <= u64::MAX,
    ensures
        out@ == abi_request_enc(r@),
{
    proof {
        lemma_piece_bounds_request(r@);
    }
    let e0 = abi_string(&r.url);
    let e1 = abi_string(&r.method);
    let e2 = abi_string_array(&r.headerKeys);
    let e3 = abi_string_array(&r.headerValues);
    let e4 = abi_string(&r.body);
    let e5 = abi_string_array(&r.responseHeaders);
    let mut out: Vec<u8> = Vec::new();
    let mut off: u64 = 192;
    push_u64_word(&mut out, off);
    off = off + (e0.len() as u64);
    push_u64_word(&mut out, off);
    off = off + (e1.len() as u64);
    push_u64_word(&mut out, off);
    off = off + (e2.len() as u64);
    push_u64_word(&mut out, off);
    off = off + (e3.len() as u64);
    push_u64_word(&mut out, off);
    off = off + (e4.len() as u64);
    push_u64_word(&mut out, off);
    push_bytes(&mut out, e0.as_slice());
    push_bytes(&mut out, e1.as_slice());
    push_bytes(&mut out, e2.as_slice());
    push_bytes(&mut out, e3.as_slice());
    push_bytes(&mut out, e4.as_slice());
    push_bytes(&mut out, e5.as_slice());
    proof {
        reveal(abi_request_enc);
        assert(out@ =~= abi_request_enc(r@));
    }
    out
}

/// Each piece of the request encoding fits within the whole.
proof fn lemma_piece_bounds_request(r: RequestDataV)
    ensures
        abi_request_enc(r).len() == 192 + abi_str_enc(r.url).len() + abi_str_enc(r.method).len()
            + abi_str_array_enc(r.header_keys).len() + abi_str_array_enc(r.header_values).len()
            + abi_str_enc(r.body).len() + abi_str_array_enc(r.response_headers).len(),
{
    reveal(abi_request_enc);
}

/// Encodes the committed response fields.
fn abi_encode_response(r: &ResponseData) -> (out: Vec<u8>)
    requires
        abi_response_enc(r@).len() <= u64::MAX,
    ensures
        out@ == abi_response_enc(r@),
{
    proof {
        lemma_piece_bounds_response(r@);
    }
    let e2 = abi_string_array(&r.headerKeys);
    let e3 = abi_string_array(&r.headerValues);
    let e4 = abi_string(&r.body);
    let mut out: Vec<u8> = Vec::new();
    push_u64_word(&mut out, r.handler as u64);
    push_u64_word(&mut out, r.status as u64);
    let mut off: u64 = 192;
    push_u64_word(&mut out, off);
    off = off + (e2.len() as u64);
    push_u64_word(&mut out, off);
    off = off + (e3.len() as u64);
    push_u64_word(&mut out, off);
    push_u64_word(&mut out, r.timestamp);
    push_bytes(&mut out, e2.as_slice());
    push_bytes(&mut out, e3.as_slice());
    push_bytes(&mut out, e4.as_slice());
    proof {
        reveal(abi_response_enc);
        assert(out@ =~= abi_response_enc(r@));
    }
    out
}

/// Each piece of the response encoding fits within the whole.
proof fn lemma_piece_bounds_response(r: ResponseDataV)
    ensures
        abi_response_enc(r).len() == 192 + abi_str_array_enc(r.header_keys).len()
            + abi_str_array_enc(r.header_values).len() + abi_str_enc(r.body).len(),
{
    reveal(abi_response_enc);
}

/// Encodes the full signing structure as ABI parameters.
#[verifier::rlimit(60)]
pub fn abi_encode_params(d: &RequestResponseData) -> (out: Vec<u8>)
    requires
        abi_params_enc(d@).len() <= u64::MAX,
    ensures
        out@ == abi_params_enc(d@),
{
    proof {
        reveal(abi_params_enc);
        assert(abi_params_enc(d@).len() == 64 + abi_request_enc(d@.request_data).len()
            + abi_response_enc(d@.response_data).len());
        lemma_piece_bounds_request(d@.request_data);
        lemma_piece_bounds_response(d@.response_data);
    }
    let er = abi_encode_request(&d.requestData);
    let es = abi_encode_response(&d.responseData);
    let mut out: Vec<u8> = Vec::new();
    push_u64_word(&mut out, 64);
    proof {
        assert(out@ =~= u64_word(64));
    }
    push_u64_word(&mut out, 64 + (er.len() as u64));
    push_bytes(&mut out, er.as_slice());
    push_bytes(&mut out, es.as_slice());
    proof {
        reveal(abi_params_enc);
        let erv = abi_request_enc(d@.request_data);
        let esv = abi_response_enc(d@.response_data);
        assert(abi_params_enc(d@) == u64_word(64) + u64_word((64 + erv.len()) as u64) + erv + esv);
        assert(out@ == u64_word(64) + u64_word((64 + erv.len()) as u64) + erv + esv);
    }
    out
}

} // verus!
