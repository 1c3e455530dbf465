//! Canonical encoder: the domain-separated structured hash of the signing
//! schema.
//!
//! Every value is reduced to 32-byte words: integers as big-endian words,
//! strings as the Keccak-256 hash of their UTF-8 bytes, string lists as the
//! hash of their elements' hashes, structs as the hash of a type tag followed
//! by their field words.  The final digest mixes in a fixed protocol domain
//! (name `Teefetch`, version `1`) behind the `\x19\x01` marker, so digests of
//! this protocol can never collide with another protocol's use of the same
//! schema.

use crate::crypto::{keccak, keccak_of};
use crate::model::{RequestDataV, RequestResponseData, RequestResponseDataV, ResponseDataV};
use vstd::prelude::*;
use vstd::utf8::encode_utf8;

verus! {

/// A value as a 32-byte big-endian word: 24 zero bytes, then the value's
/// eight bytes, most significant first.
pub open spec fn u64_word(x: u64) -> Seq<u8> {
    Seq::new(24, |i: int| 0u8) + seq![
        (x >> 56) as u8,
        (x >> 48) as u8,
        (x >> 40) as u8,
        (x >> 32) as u8,
        (x >> 24) as u8,
        (x >> 16) as u8,
        (x >> 8) as u8,
        x as u8,
    ]
}

/// The word standing for a string: the hash of its UTF-8 bytes.
pub open spec fn hash_str(s: Seq<char>) -> Seq<u8> {
    keccak_of(encode_utf8(s))
}

/// The concatenated words of a string list's elements.
pub open spec fn str_hashes(a: Seq<Seq<char>>) -> Seq<u8>
    decreases a.len(),
{
    if a.len() == 0 {
        Seq::empty()
    } else {
        str_hashes(a.drop_last()) + hash_str(a.last())
    }
}

/// The word standing for a string list: the hash of its elements' words.
pub open spec fn hash_str_array(a: Seq<Seq<char>>) -> Seq<u8> {
    keccak_of(str_hashes(a))
}

/// Type tag of the request schema.
pub open spec fn request_data_typehash() -> Seq<u8> {
    keccak_of(
        encode_utf8(
            "RequestData(string url,string method,string[] headerKeys,string[] headerValues,string body,string[] responseHeaders)"@,
        ),
    )
}

/// Type tag of the response schema.
pub open spec fn response_data_typehash() -> Seq<u8> {
    keccak_of(
        encode_utf8(
            "ResponseData(uint8 handler,uint16 status,string[] headerKeys,string[] headerValues,string body,uint64 timestamp)"@,
        ),
    )
}

/// Type tag of the combined schema: the root type followed by its component
/// types in name order.
pub open spec fn request_response_typehash() -> Seq<u8> {
    keccak_of(
        encode_utf8(
            "RequestResponseData(RequestData requestData,ResponseData responseData)RequestData(string url,string method,string[] headerKeys,string[] headerValues,string body,string[] responseHeaders)ResponseData(uint8 handler,uint16 status,string[] headerKeys,string[] headerValues,string body,uint64 timestamp)"@,
        ),
    )
}

/// Type tag of the protocol domain.
pub open spec fn domain_typehash() -> Seq<u8> {
    keccak_of(encode_utf8("EIP712Domain(string name,string version)"@))
}

/// The protocol's domain separator: the hash of the domain tag and the
/// protocol name and version words.
pub open spec fn domain_separator() -> Seq<u8> {
    keccak_of(domain_typehash() + hash_str("Teefetch"@) + hash_str("1"@))
}

/// Hash of the committed request fields under their type tag.
pub open spec fn request_data_hash(r: RequestDataV) -> Seq<u8> {
    keccak_of(
        request_data_typehash() + hash_str(r.url) + hash_str(r.method) + hash_str_array(
            r.header_keys,
        ) + hash_str_array(r.header_values) + hash_str(r.body) + hash_str_array(
            r.response_headers,
        ),
    )
}

/// Hash of the committed response fields under their type tag.
pub open spec fn response_data_hash(r: ResponseDataV) -> Seq<u8> {
    keccak_of(
        response_data_typehash() + u64_word(r.handler as u64) + u64_word(r.status as u64)
            + hash_str_array(r.header_keys) + hash_str_array(r.header_values) + hash_str(r.body)
            + u64_word(r.timestamp),
    )
}

/// The 32-byte signing digest of a canonical signing structure.
pub open spec fn signing_digest_of(d: RequestResponseDataV) -> Seq<u8> {
    keccak_of(
        seq![0x19u8, 0x01u8] + domain_separator() + keccak_of(
            request_response_typehash() + request_data_hash(d.request_data) + response_data_hash(
                d.response_data,
            ),
        ),
    )
}

/// Appends bytes to a buffer.
pub(crate) fn push_bytes(out: &mut Vec<u8>, b: &[u8])
    ensures
        final(out)@ == old(out)@ + b@,
{
    let mut i: usize = 0;
    proof {
        assert(out@ =~= old(out)@ + b@.take(0));
    }
    while i < b.len()
        invariant
            i <= b@.len(),
            out@ == old(out)@ + b@.take(i as int),
        decreases b@.len() - i,
    {
        out.push(b[i]);
        proof {
            assert(old(out)@ + b@.take(i + 1) =~= (old(out)@ + b@.take(i as int)).push(
                b@[i as int],
            ));
        }
        i = i + 1;
    }
    proof {
        assert(b@.take(b@.len() as int) =~= b@);
    }
}

/// Appends a value as a 32-byte big-endian word.
pub(crate) fn push_u64_word(out: &mut Vec<u8>, x: u64)
    ensures
        final(out)@ == old(out)@ + u64_word(x),
{
    let mut k: usize = 0;
    while k < 24
        invariant
            k <= 24,
            out@.len() == old(out)@.len() + k,
            out@ == old(out)@ + u64_word(x).take(k as int),
        decreases 24 - k,
    {
        out.push(0u8);
        proof {
            assert(old(out)@ + u64_word(x).take(k + 1) =~= (old(out)@ + u64_word(x).take(
                k as int,
            )).push(0u8));
        }
        k = k + 1;
    }
    out.push(#[verifier::truncate] ((x >> 56) as u8));
    out.push(#[verifier::truncate] ((x >> 48) as u8));
    out.push(#[verifier::truncate] ((x >> 40) as u8));
    out.push(#[verifier::truncate] ((x >> 32) as u8));
    out.push(#[verifier::truncate] ((x >> 24) as u8));
    out.push(#[verifier::truncate] ((x >> 16) as u8));
    out.push(#[verifier::truncate] ((x >> 8) as u8));
    out.push(#[verifier::truncate] (x as u8));
    proof {
        assert(out@ =~= old(out)@ + u64_word(x));
    }
}

/// Hashes a string's UTF-8 bytes into its word.
pub(crate) fn hash_string(s: &String) -> (r: Vec<u8>)
    ensures
        r@ == hash_str(s@),
        r@.len() == 32,
{
    keccak(s.as_str().as_bytes())
}

/// Hashes a string list into its word.
pub(crate) fn hash_string_array(a: &Vec<String>) -> (r: Vec<u8>)
    ensures
        r@ == hash_str_array(a.deep_view()),
        r@.len() == 32,
{
    let mut buf: Vec<u8> = Vec::new();
    let mut i: usize = 0;
    proof {
        assert(a.deep_view().take(0) =~= Seq::<Seq<char>>::empty());
    }
    while i < a.len()
        invariant
            i <= a@.len(),
            a@.len() == a.deep_view().len(),
            buf@ == str_hashes(a.deep_view().take(i as int)),
        decreases a@.len() - i,
    {
        let h = hash_string(&a[i]);
        push_bytes(&mut buf, h.as_slice());
        proof {
            let dv = a.deep_view();
            assert(dv.take(i + 1).drop_last() =~= dv.take(i as int));
            assert(dv.take(i + 1).last() == dv[i as int]);
            assert(a@[i as int]@ == dv[i as int]);
        }
        i = i + 1;
    }
    proof {
        assert(a.deep_view().take(a@.len() as int) =~= a.deep_view());
    }
    keccak(buf.as_slice())
}

/// Computes the 32-byte signing digest of a canonical signing structure.
pub fn signing_digest(d: &RequestResponseData) -> (r: Vec<u8>)
    ensures
        r@ == signing_digest_of(d@),
        r@.len() == 32,
{
    // hash of the committed request fields
    let mut req_enc: Vec<u8> = Vec::new();
    let th_req = keccak(
        "RequestData(string url,string method,string[] headerKeys,string[] headerValues,string body,string[] responseHeaders)".as_bytes(),
    );
    push_bytes(&mut req_enc, th_req.as_slice());
    let w = hash_string(&d.requestData.url);
    push_bytes(&mut req_enc, w.as_slice());
    let w = hash_string(&d.requestData.method);
    push_bytes(&mut req_enc, w.as_slice());
    let w = hash_string_array(&d.requestData.headerKeys);
    push_bytes(&mut req_enc, w.as_slice());
    let w = hash_string_array(&d.requestData.headerValues);
    push_bytes(&mut req_enc, w.as_slice());
    let w = hash_string(&d.requestData.body);
    push_bytes(&mut req_enc, w.as_slice());
    let w = hash_string_array(&d.requestData.responseHeaders);
    push_bytes(&mut req_enc, w.as_slice());
    let req_hash = keccak(req_enc.as_slice());
    proof {
        assert(req_hash@ == request_data_hash(d.requestData@));
    }
    // hash of the committed response fields
    let mut resp_enc: Vec<u8> = Vec::new();
    let th_resp = keccak(
        "ResponseData(uint8 handler,uint16 status,string[] headerKeys,string[] headerValues,string body,uint64 timestamp)".as_bytes(),
    );
    push_bytes(&mut resp_enc, th_resp.as_slice());
    push_u64_word(&mut resp_enc, d.responseData.handler as u64);
    push_u64_word(&mut resp_enc, d.responseData.status as u64);
    let w = hash_string_array(&d.responseData.headerKeys);
    push_bytes(&mut resp_enc, w.as_slice());
    let w = hash_string_array(&d.responseData.headerValues);
    push_bytes(&mut resp_enc, w.as_slice());
    let w = hash_string(&d.responseData.body);
    push_bytes(&mut resp_enc, w.as_slice());
    push_u64_word(&mut resp_enc, d.responseData.timestamp);
    let resp_hash = keccak(resp_enc.as_slice());
    proof {
        assert(resp_hash@ == response_data_hash(d.responseData@));
    }
    // hash of the combined structure
    let mut comb_enc: Vec<u8> = Vec::new();
    let th_comb = keccak(
        "RequestResponseData(RequestData requestData,ResponseData responseData)RequestData(string url,string method,string[] headerKeys,string[] headerValues,string body,string[] responseHeaders)ResponseData(uint8 handler,uint16 status,string[] headerKeys,string[] headerValues,string body,uint64 timestamp)".as_bytes(),
    );
    push_bytes(&mut comb_enc, th_comb.as_slice());
    push_bytes(&mut comb_enc, req_hash.as_slice());
    push_bytes(&mut comb_enc, resp_hash.as_slice());
    let struct_hash = keccak(comb_enc.as_slice());
    // domain separator
    let mut dom_enc: Vec<u8> = Vec::new();
    let th_dom = keccak("EIP712Domain(string name,string version)".as_bytes());
    push_bytes(&mut dom_enc, th_dom.as_slice());
    let w = keccak("Teefetch".as_bytes());
    push_bytes(&mut dom_enc, w.as_slice());
    let w = keccak("1".as_bytes());
    push_bytes(&mut dom_enc, w.as_slice());
    let dom_hash = keccak(dom_enc.as_slice());
    proof {
        assert(dom_hash@ == domain_separator());
    }
    // final digest behind the \x19\x01 marker
    let mut input: Vec<u8> = Vec::new();
    input.push(0x19u8);
    input.push(0x01u8);
    push_bytes(&mut input, dom_hash.as_slice());
    push_bytes(&mut input, struct_hash.as_slice());
    proof {
        assert(Seq::<u8>::empty().push(0x19u8).push(0x01u8) =~= seq![0x19u8, 0x01u8]);
        assert(input@ =~= seq![0x19u8, 0x01u8] + domain_separator() + keccak_of(
            request_response_typehash() + request_data_hash(d.requestData@) + response_data_hash(
                d.responseData@,
            ),
        ));
    }
    keccak(input.as_slice())
}

} // verus!
