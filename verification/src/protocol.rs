//! The attested-fetch protocol: signing and verification.
//!
//! The proxy side assembles the committed response data, derives the signing
//! digest and attaches a recoverable signature
//! (`build_signed_response`).  The verifying side recomputes the digest from
//! the data it holds, recovers the signer's public key from the signature and
//! compares it against the attested key (`OysterHttpsResponse::verify`).

use crate::crypto::{
    pubkey_point_of, recover_of, recover_pubkey, secret_key_valid, sig65_of,
    sign_recoverable,
};
use crate::encode::{signing_digest, signing_digest_of};
use crate::hex::{
    ascii_to_string, hex_bytes_of, hex_decode_bytes, hex_decode_of, hex_digit, hex_encode_bytes,
    lemma_ascii_bytes_valid_utf8, lemma_hex_round_trip,
};
use crate::model::{
    Request, RequestData, RequestDataV, RequestResponseData, RequestResponseDataV, RequestV,
    Response, ResponseData, ResponseDataV, ResponseV,
};
use crate::order::{
    canon_headers, filter_headers, header_order, keep_disclosed, lemma_header_order_total,
    sort_headers, HeaderPairV,
};
use vstd::prelude::*;
use vstd::seq_lib::lemma_sorted_unique;
use vstd::utf8::encode_utf8;

verus! {

/// Why verification failed.
#[derive(Debug, Clone, Copy, PartialEq, Eq, Structural)]
pub enum VerifyError {
    /// The signature is not hex text denoting exactly 65 bytes.
    MalformedSignature,
    /// The recovery marker byte is neither 27 nor 28.
    InvalidRecoveryId,
    /// No public key could be recovered from the signature.
    RecoveryFailed,
    /// The recovered key differs from the attested key.
    KeyMismatch,
}

/// Why signing failed.
#[derive(Debug, Clone, Copy, PartialEq, Eq, Structural)]
pub enum SignError {
    /// The secret is not a valid secp256k1 key.
    InvalidSecretKey,
}

/// The canonical signing structure derived from a request and a response:
/// committed fields only, header mappings flattened into canonically ordered
/// parallel lists, and the handler tag fixed to the scheme constant `1`.
/// Uncommitted headers, the uncommitted body and the signature never enter it.
pub open spec fn spec_sol_data(rq: RequestV, rs: ResponseV) -> RequestResponseDataV {
    RequestResponseDataV {
        request_data: RequestDataV {
            url: rq.url,
            method: rq.method,
            header_keys: canon_headers(rq.headers).map_values(|p: HeaderPairV| p.0),
            header_values: canon_headers(rq.headers).map_values(|p: HeaderPairV| p.1),
            body: rq.body,
            response_headers: rq.response_headers,
        },
        response_data: ResponseDataV {
            handler: 1,
            status: rs.status,
            header_keys: canon_headers(rs.headers).map_values(|p: HeaderPairV| p.0),
            header_values: canon_headers(rs.headers).map_values(|p: HeaderPairV| p.1),
            body: rs.body,
            timestamp: rs.timestamp,
        },
    }
}

/// The signing digest of a request/response pair.
pub open spec fn request_response_digest(rq: RequestV, rs: ResponseV) -> Seq<u8> {
    signing_digest_of(spec_sol_data(rq, rs))
}

/// The signature text the proxy attaches: `0x`, then lowercase hex of the
/// 64 signature bytes followed by one marker byte, recovery id plus 27.
pub open spec fn spec_signature_text(secret: Seq<u8>, digest: Seq<u8>) -> Seq<u8> {
    let s65 = sig65_of(secret, digest);
    seq![0x30u8, 0x78u8] + hex_bytes_of(s65.take(64) + seq![(s65[64] + 27) as u8])
}

/// The verifier's decision for a request/response pair against an attested
/// key (the 64-byte x/y concatenation of the signer's public key).
pub open spec fn spec_verify(rq: RequestV, rs: ResponseV, attested: Seq<u8>) -> Result<
    (),
    VerifyError,
> {
    let digest = request_response_digest(rq, rs);
    match hex_decode_of(encode_utf8(rs.signature)) {
        Option::None => Result::Err(VerifyError::MalformedSignature),
        Option::Some(sig) => if sig.len() != 65 {
            Result::Err(VerifyError::MalformedSignature)
        } else if sig[64] != 27 && sig[64] != 28 {
            Result::Err(VerifyError::InvalidRecoveryId)
        } else {
            match recover_of(digest, sig.take(64), (sig[64] - 27) as u8) {
                Option::None => Result::Err(VerifyError::RecoveryFailed),
                Option::Some(pt) => if pt.skip(1) == attested {
                    Result::Ok(())
                } else {
                    Result::Err(VerifyError::KeyMismatch)
                },
            }
        },
    }
}

/// Splits header pairs into parallel key and value lists.
fn split_pairs(hs: &Vec<(String, String)>) -> (r: (Vec<String>, Vec<String>))
    ensures
        r.0.deep_view() == hs.deep_view().map_values(|p: HeaderPairV| p.0),
        r.1.deep_view() == hs.deep_view().map_values(|p: HeaderPairV| p.1),
{
    let mut keys: Vec<String> = Vec::new();
    let mut values: Vec<String> = Vec::new();
    let mut i: usize = 0;
    while i < hs.len()
        invariant
            i <= hs@.len(),
            keys@.len() == i,
            values@.len() == i,
            forall|j: int| 0 <= j < i ==> keys@[j] == hs@[j].0,
            forall|j: int| 0 <= j < i ==> values@[j] == hs@[j].1,
        decreases hs@.len() - i,
    {
        keys.push(hs[i].0.clone());
        values.push(hs[i].1.clone());
        i = i + 1;
    }
    proof {
        assert forall|j: int| 0 <= j < hs@.len() implies keys.deep_view()[j] == hs.deep_view()[j].0
            && values.deep_view()[j] == hs.deep_view()[j].1 by {
            assert(keys@[j] == hs@[j].0);
            assert(values@[j] == hs@[j].1);
        }
        assert(keys.deep_view() =~= hs.deep_view().map_values(|p: HeaderPairV| p.0));
        assert(values.deep_view() =~= hs.deep_view().map_values(|p: HeaderPairV| p.1));
    }
    (keys, values)
}

/// Clones a list of strings.
fn clone_strings(a: &Vec<String>) -> (r: Vec<String>)
    ensures
        r.deep_view() == a.deep_view(),
{
    let mut r: Vec<String> = Vec::new();
    let mut i: usize = 0;
    while i < a.len()
        invariant
            i <= a@.len(),
            r@.len() == i,
            forall|j: int| 0 <= j < i ==> r.deep_view()[j] == a.deep_view()[j],
        decreases a@.len() - i,
    {
        r.push(a[i].clone());
        i = i + 1;
    }
    proof {
        assert(r.deep_view() =~= a.deep_view());
    }
    r
}

/// Builds the canonical signing structure for a request/response pair.
pub fn sol_data(request: &Request, response: &Response) -> (r: RequestResponseData)
    ensures
        r@ == spec_sol_data(request@, response@),
{
    let req_sorted = sort_headers(&request.headers);
    let (req_keys, req_values) = split_pairs(&req_sorted);
    let resp_sorted = sort_headers(&response.headers);
    let (resp_keys, resp_values) = split_pairs(&resp_sorted);
    RequestResponseData {
        requestData: RequestData {
            url: request.url.clone(),
            method: request.method.clone(),
            headerKeys: req_keys,
            headerValues: req_values,
            body: request.body.clone(),
            responseHeaders: clone_strings(&request.response_headers),
        },
        responseData: ResponseData {
            handler: 1,
            status: response.status,
            headerKeys: resp_keys,
            headerValues: resp_values,
            body: response.body.clone(),
            timestamp: response.timestamp,
        },
    }
}

/// A fetched response paired with the request it answers and the proxy host,
/// ready to be checked against an attested key.
pub struct OysterHttpsResponse {
    request: Request,
    response: Response,
    ip: String,
}

/// Specification view of an `OysterHttpsResponse`.
pub struct OysterHttpsResponseV {
    pub request: RequestV,
    pub response: ResponseV,
    pub ip: Seq<char>,
}

impl View for OysterHttpsResponse {
    type V = OysterHttpsResponseV;

    closed spec fn view(&self) -> OysterHttpsResponseV {
        OysterHttpsResponseV { request: self.request@, response: self.response@, ip: self.ip@ }
    }
}

impl OysterHttpsResponse {
    /// Pairs a request with the response observed for it.
    pub fn new(request: Request, response: Response, ip: String) -> (r: Self)
        ensures
            r@ == (OysterHttpsResponseV { request: request@, response: response@, ip: ip@ }),
    {
        Self { request, response, ip }
    }

    /// The canonical signing structure for this pair.
    #[allow(non_snake_case)]
    pub fn _sol_data(&self) -> (r: RequestResponseData)
        ensures
            r@ == spec_sol_data(self@.request, self@.response),
    {
        sol_data(&self.request, &self.response)
    }

    /// The 32-byte signing digest for this pair.
    pub fn _create_digest(&self) -> (r: Vec<u8>)
        ensures
            r@ == request_response_digest(self@.request, self@.response),
            r@.len() == 32,
    {
        let data = self._sol_data();
        signing_digest(&data)
    }

    /// The ABI parameter encoding of this pair's canonical signing
    /// structure, for callers that hand the committed data to a contract.
    /// The machine bound on the encoding's length is the one precondition.
    pub fn abi_encode(&self) -> (r: Vec<u8>)
        requires
            crate::abi::abi_params_enc(spec_sol_data(self@.request, self@.response)).len()
                <= u64::MAX,
        ensures
            r@ == crate::abi::abi_params_enc(spec_sol_data(self@.request, self@.response)),
    {
        let data = self._sol_data();
        crate::abi::abi_encode_params(&data)
    }

    /// The signature text carried by the response.
    pub fn get_signature(&self) -> (r: &str)
        ensures
            r@ == self@.response.signature,
    {
        self.response.signature.as_str()
    }

    /// Checks the response against an attested public key (64 bytes, the
    /// x/y concatenation of the signer's uncompressed public key).
    ///
    /// The digest is recomputed from the request and response this value
    /// holds; the signature is decoded (the marker byte must be 27 or 28,
    /// checked before any recovery attempt); the public key recovered from
    /// digest and signature must equal the attested key, byte for byte.
    pub fn verify(&self, attested_pubkey: &Vec<u8>) -> (r: Result<(), VerifyError>)
        ensures
            r == spec_verify(self@.request, self@.response, attested_pubkey@),
    {
        let digest = self._create_digest();
        let sig_bytes = match hex_decode_bytes(self.response.signature.as_str().as_bytes()) {
            Some(v) => v,
            None => {
                return Err(VerifyError::MalformedSignature);
            },
        };
        if sig_bytes.len() != 65 {
            return Err(VerifyError::MalformedSignature);
        }
        let marker = sig_bytes[64];
        if marker != 27 && marker != 28 {
            return Err(VerifyError::InvalidRecoveryId);
        }
        let point = match recover_pubkey(&digest, &sig_bytes, marker - 27) {
            Some(p) => p,
            None => {
                return Err(VerifyError::RecoveryFailed);
            },
        };
        if tail_matches(&point, attested_pubkey) {
            Ok(())
        } else {
            Err(VerifyError::KeyMismatch)
        }
    }
}

/// The signer's public key in the form the verifier compares against: the
/// 64-byte x/y concatenation of the uncompressed point, format byte
/// stripped.  `None` exactly when the secret is not a valid key.
pub fn signer_public_key(secret: &[u8; 32]) -> (r: Option<Vec<u8>>)
    ensures
        r is Some <==> secret_key_valid(secret@),
        r is Some ==> r.unwrap()@ == pubkey_point_of(secret@).skip(1),
{
    let point = match crate::crypto::verifying_key_bytes(secret) {
        Some(p) => p,
        None => {
            return None;
        },
    };
    let mut tail: Vec<u8> = Vec::new();
    let mut i: usize = 1;
    while i < point.len()
        invariant
            1 <= i <= point@.len(),
            point@ == pubkey_point_of(secret@),
            tail@ == point@.subrange(1, i as int),
        decreases point@.len() - i,
    {
        tail.push(point[i]);
        proof {
            assert(point@.subrange(1, i + 1) =~= point@.subrange(1, i as int).push(
                point@[i as int],
            ));
        }
        i = i + 1;
    }
    proof {
        assert(point@.subrange(1, point@.len() as int) =~= point@.skip(1));
    }
    Some(tail)
}

/// Whether a 65-byte point equals an attested key once its format byte is
/// stripped.
fn tail_matches(point: &Vec<u8>, attested: &Vec<u8>) -> (r: bool)
    requires
        point@.len() == 65,
    ensures
        r == (point@.skip(1) == attested@),
{
    if attested.len() != 64 {
        proof {
            assert(point@.skip(1).len() == 64);
        }
        return false;
    }
    let mut i: usize = 0;
    while i < 64
        invariant
            i <= 64,
            point@.len() == 65,
            attested@.len() == 64,
            forall|j: int| 0 <= j < i ==> point@[j + 1] == attested@[j],
        decreases 64 - i,
    {
        if point[i + 1] != attested[i] {
            proof {
                assert(point@.skip(1)[i as int] != attested@[i as int]);
            }
            return false;
        }
        i = i + 1;
    }
    proof {
        assert(point@.skip(1) =~= attested@);
    }
    true
}

/// Executes the proxy's signing step: filters the observed response headers
/// down to the disclosed names, assembles the committed response data with
/// the fixed handler tag, derives the signing digest and attaches the
/// recoverable signature as `0x`-prefixed hex text.
///
/// Fails exactly when the secret is not a valid key.  On success the
/// returned response carries the given status, body and timestamp, exactly
/// the disclosed headers, and a signature that verifies against the signer's
/// own public key (shown here for recovery ids 0 and 1; the signer never
/// emits others except in an astronomically rare reduced-x case, whose
/// marker the verifier rejects).
pub fn build_signed_response(
    request: &Request,
    status: u16,
    observed_headers: &Vec<(String, String)>,
    body: String,
    timestamp: u64,
    secret: &[u8; 32],
) -> (r: Result<Response, SignError>)
    ensures
        r is Ok <==> secret_key_valid(secret@),
        r is Err ==> r == Result::<Response, SignError>::Err(SignError::InvalidSecretKey),
        r is Ok ==> ({
            let resp = r.unwrap()@;
            &&& resp.handler == 1
            &&& resp.status == status
            &&& resp.headers == keep_disclosed(
                observed_headers.deep_view(),
                request@.response_headers,
            )
            &&& resp.body == body@
            &&& resp.timestamp == timestamp
            &&& encode_utf8(resp.signature) == spec_signature_text(
                secret@,
                request_response_digest(request@, resp),
            )
        }),
        r is Ok && sig65_of(secret@, request_response_digest(request@, r.unwrap()@))[64] < 2
            ==> spec_verify(request@, r.unwrap()@, pubkey_point_of(secret@).skip(1))
            == Result::<(), VerifyError>::Ok(()),
{
    let disclosed = filter_headers(observed_headers, &request.response_headers);
    let mut response = Response {
        handler: 1,
        status,
        headers: disclosed,
        body,
        timestamp,
        signature: String::new(),
    };
    let data = sol_data(request, &response);
    let digest = signing_digest(&data);
    let mut sig = match sign_recoverable(secret, &digest) {
        Some(s) => s,
        None => {
            return Err(SignError::InvalidSecretKey);
        },
    };
    let ghost s65 = sig65_of(secret@, digest@);
    let marker = sig[64] + 27;
    sig.truncate(64);
    sig.push(marker);
    proof {
        assert(sig@ =~= s65.take(64) + seq![(s65[64] + 27) as u8]);
    }
    let hex_digits = hex_encode_bytes(sig.as_slice());
    let mut text: Vec<u8> = Vec::new();
    text.push(0x30);
    text.push(0x78);
    crate::encode::push_bytes(&mut text, hex_digits.as_slice());
    proof {
        assert(text@ =~= seq![0x30u8, 0x78u8] + hex_bytes_of(sig@));
        assert forall|i: int| 0 <= i < text@.len() implies #[trigger] text@[i] < 0x80 by {
            if i >= 2 {
                let h = hex_bytes_of(sig@);
                assert(h[i - 2] == if (i - 2) % 2 == 0 {
                    hex_digit((sig@[(i - 2) / 2] / 16) as u8)
                } else {
                    hex_digit((sig@[(i - 2) / 2] % 16) as u8)
                });
            }
        }
        lemma_ascii_bytes_valid_utf8(text@);
    }
    response.signature = ascii_to_string(text);
    proof {
        // the digest reads no signature, so it is unchanged by setting one
        assert(spec_sol_data(request@, response@) == data@);
        assert(request_response_digest(request@, response@) == digest@);
        if s65[64] < 2 {
            lemma_round_trip(request@, response@, pubkey_point_of(secret@).skip(1), secret@);
        }
    }
    Ok(response)
}

/// Round trip: a response signed by the proxy verifies against the signer's
/// own public key, for every request, every committed response content and
/// every valid secret key, whenever the signature's recovery id is 0 or 1.
pub proof fn lemma_round_trip(rq: RequestV, rs: ResponseV, attested: Seq<u8>, secret: Seq<u8>)
    requires
        ({
            let digest = request_response_digest(rq, rs);
            let s65 = sig65_of(secret, digest);
            &&& s65.len() == 65
            &&& s65[64] < 2
            &&& recover_of(digest, s65.take(64), s65[64]) == Some(pubkey_point_of(secret))
            &&& pubkey_point_of(secret).len() == 65
            &&& encode_utf8(rs.signature) == spec_signature_text(secret, digest)
            &&& attested == pubkey_point_of(secret).skip(1)
        }),
    ensures
        spec_verify(rq, rs, attested) == Result::<(), VerifyError>::Ok(()),
{
    let digest = request_response_digest(rq, rs);
    let s65 = sig65_of(secret, digest);
    let wire = s65.take(64) + seq![(s65[64] + 27) as u8];
    lemma_hex_round_trip(wire);
    assert(hex_decode_of(encode_utf8(rs.signature)) == Some(wire));
    assert(wire.len() == 65);
    assert(wire[64] == s65[64] + 27);
    assert(wire[64] == 27 || wire[64] == 28);
    assert(wire.take(64) =~= s65.take(64));
    assert(((wire[64] - 27) as u8) == s65[64]);
    assert(recover_of(digest, wire.take(64), (wire[64] - 27) as u8) == Some(
        pubkey_point_of(secret),
    ));
}

/// Determinism and order-independence: request/response pairs whose
/// committed fields agree — with the committed header mappings equal as sets
/// of pairs, in any order — have the same signing digest.  Uncommitted
/// request headers and bodies and the signature play no part.
pub proof fn lemma_digest_deterministic(
    rq1: RequestV,
    rs1: ResponseV,
    rq2: RequestV,
    rs2: ResponseV,
)
    requires
        rq1.url == rq2.url,
        rq1.method == rq2.method,
        rq1.body == rq2.body,
        rq1.response_headers == rq2.response_headers,
        rq1.headers.to_multiset() == rq2.headers.to_multiset(),
        rs1.status == rs2.status,
        rs1.body == rs2.body,
        rs1.timestamp == rs2.timestamp,
        rs1.headers.to_multiset() == rs2.headers.to_multiset(),
    ensures
        request_response_digest(rq1, rs1) == request_response_digest(rq2, rs2),
{
    lemma_canon_headers_of_multiset(rq1.headers, rq2.headers);
    lemma_canon_headers_of_multiset(rs1.headers, rs2.headers);
    assert(spec_sol_data(rq1, rs1) == spec_sol_data(rq2, rs2));
}

/// The canonical header order is a function of the header multiset alone.
pub proof fn lemma_canon_headers_of_multiset(a: Seq<HeaderPairV>, b: Seq<HeaderPairV>)
    requires
        a.to_multiset() == b.to_multiset(),
    ensures
        canon_headers(a) == canon_headers(b),
{
    lemma_header_order_total();
    a.lemma_sort_by_ensures(header_order());
    b.lemma_sort_by_ensures(header_order());
    lemma_sorted_unique(canon_headers(a), canon_headers(b), header_order());
}

/// Exclusion: two pairs that agree on every committed field have the same
/// digest, whatever their uncommitted headers, uncommitted bodies and
/// signatures hold.
pub proof fn lemma_digest_ignores_uncommitted(
    rq1: RequestV,
    rs1: ResponseV,
    rq2: RequestV,
    rs2: ResponseV,
)
    requires
        rq1.url == rq2.url,
        rq1.method == rq2.method,
        rq1.body == rq2.body,
        rq1.response_headers == rq2.response_headers,
        rq1.headers == rq2.headers,
        rs1.status == rs2.status,
        rs1.body == rs2.body,
        rs1.timestamp == rs2.timestamp,
        rs1.headers == rs2.headers,
    ensures
        request_response_digest(rq1, rs1) == request_response_digest(rq2, rs2),
{
    lemma_digest_deterministic(rq1, rs1, rq2, rs2);
}

/// Recovery-id bounds: a signature whose recovery marker byte is outside
/// {27, 28} is rejected as such, whatever key it is checked against — no
/// recovery is attempted.
pub proof fn lemma_recovery_marker_rejected(
    rq: RequestV,
    rs: ResponseV,
    attested: Seq<u8>,
    sig: Seq<u8>,
)
    requires
        hex_decode_of(encode_utf8(rs.signature)) == Some(sig),
        sig.len() == 65,
        sig[64] != 27,
        sig[64] != 28,
    ensures
        spec_verify(rq, rs, attested) == Result::<(), VerifyError>::Err(
            VerifyError::InvalidRecoveryId,
        ),
{
}

/// Exclusion: every header the proxy disclosed is named in the disclosure
/// list; response headers outside it never appear in the response, hence
/// never in the digest.
pub proof fn lemma_disclosed_only(obs: Seq<HeaderPairV>, names: Seq<Seq<char>>)
    ensures
        forall|i: int|
            0 <= i < keep_disclosed(obs, names).len() ==> names.contains(
                #[trigger] keep_disclosed(obs, names)[i].0,
            ),
{
    let pred = |p: HeaderPairV| names.contains(p.0);
    assert forall|i: int| 0 <= i < keep_disclosed(obs, names).len() implies names.contains(
        #[trigger] keep_disclosed(obs, names)[i].0,
    ) by {
        obs.lemma_filter_pred(pred, i);
    }
}

} // verus!
