//! Cross-checks the library's signing digest against an independent
//! composition from alloy's primitives: the domain separator comes from
//! alloy's own `Eip712Domain`, the rest is assembled word by word from the
//! published schema.

use std::borrow::Cow;

use alloy::primitives::keccak256;
use teefetch::model::{Request, Response};
use teefetch::protocol::OysterHttpsResponse;

fn word_of_u64(x: u64) -> [u8; 32] {
    let mut w = [0u8; 32];
    w[24..].copy_from_slice(&x.to_be_bytes());
    w
}

fn hash_str(s: &str) -> [u8; 32] {
    keccak256(s.as_bytes()).0
}

fn hash_str_array(items: &[&str]) -> [u8; 32] {
    let mut buf = Vec::new();
    for it in items {
        buf.extend_from_slice(&keccak256(it.as_bytes()).0);
    }
    keccak256(&buf).0
}

#[allow(clippy::too_many_arguments)]
fn reference_digest(
    url: &str,
    method: &str,
    header_keys: &[&str],
    header_values: &[&str],
    body: &str,
    response_headers: &[&str],
    status: u16,
    resp_keys: &[&str],
    resp_values: &[&str],
    resp_body: &str,
    timestamp: u64,
) -> [u8; 32] {
    let req_th = keccak256(
        b"RequestData(string url,string method,string[] headerKeys,string[] headerValues,string body,string[] responseHeaders)",
    )
    .0;
    let resp_th = keccak256(
        b"ResponseData(uint8 handler,uint16 status,string[] headerKeys,string[] headerValues,string body,uint64 timestamp)",
    )
    .0;
    let rr_th = keccak256(
        b"RequestResponseData(RequestData requestData,ResponseData responseData)RequestData(string url,string method,string[] headerKeys,string[] headerValues,string body,string[] responseHeaders)ResponseData(uint8 handler,uint16 status,string[] headerKeys,string[] headerValues,string body,uint64 timestamp)",
    )
    .0;
    let mut req_enc = Vec::new();
    req_enc.extend_from_slice(&req_th);
    req_enc.extend_from_slice(&hash_str(url));
    req_enc.extend_from_slice(&hash_str(method));
    req_enc.extend_from_slice(&hash_str_array(header_keys));
    req_enc.extend_from_slice(&hash_str_array(header_values));
    req_enc.extend_from_slice(&hash_str(body));
    req_enc.extend_from_slice(&hash_str_array(response_headers));
    let req_hash = keccak256(&req_enc).0;
    let mut resp_enc = Vec::new();
    resp_enc.extend_from_slice(&resp_th);
    resp_enc.extend_from_slice(&word_of_u64(1));
    resp_enc.extend_from_slice(&word_of_u64(status as u64));
    resp_enc.extend_from_slice(&hash_str_array(resp_keys));
    resp_enc.extend_from_slice(&hash_str_array(resp_values));
    resp_enc.extend_from_slice(&hash_str(resp_body));
    resp_enc.extend_from_slice(&word_of_u64(timestamp));
    let resp_hash = keccak256(&resp_enc).0;
    let mut comb = Vec::new();
    comb.extend_from_slice(&rr_th);
    comb.extend_from_slice(&req_hash);
    comb.extend_from_slice(&resp_hash);
    let struct_hash = keccak256(&comb).0;
    let domain = alloy::dyn_abi::Eip712Domain::new(
        Some(Cow::Borrowed("Teefetch")),
        Some(Cow::Borrowed("1")),
        None,
        None,
        None,
    );
    let mut input = vec![0x19u8, 0x01u8];
    input.extend_from_slice(domain.separator().as_slice());
    input.extend_from_slice(&struct_hash);
    keccak256(&input).0
}

#[test]
fn digest_matches_reference_composition() {
    let request = Request {
        url: String::from("https://example.com"),
        method: String::from("GET"),
        headers: vec![
            (String::from("accept"), String::from("text/html")),
            (String::from("x-req"), String::from("1")),
        ],
        excluded_headers: vec![(String::from("authorization"), String::from("token"))],
        body: String::from(""),
        excluded_body: String::from(""),
        response_headers: vec![String::from("date")],
    };
    let response = Response {
        handler: 1,
        status: 200,
        headers: vec![(String::from("date"), String::from("now"))],
        body: String::from("<html>...</html>"),
        timestamp: 1700000000,
        signature: String::new(),
    };
    let digest =
        OysterHttpsResponse::new(request, response, String::from("h"))._create_digest();
    let expected = reference_digest(
        "https://example.com",
        "GET",
        &["accept", "x-req"],
        &["text/html", "1"],
        "",
        &["date"],
        200,
        &["date"],
        &["now"],
        "<html>...</html>",
        1700000000,
    );
    assert_eq!(digest.as_slice(), &expected);
}

#[test]
fn digest_of_multibyte_text_matches_reference_composition() {
    let request = Request {
        url: String::from("https://exämple.com/✓"),
        method: String::from("GET"),
        headers: vec![(String::from("x-note"), String::from("héllo"))],
        excluded_headers: vec![],
        body: String::from("køds"),
        excluded_body: String::from(""),
        response_headers: vec![],
    };
    let response = Response {
        handler: 1,
        status: 200,
        headers: vec![],
        body: String::from("日本語"),
        timestamp: 42,
        signature: String::new(),
    };
    let digest =
        OysterHttpsResponse::new(request, response, String::from("h"))._create_digest();
    let expected = reference_digest(
        "https://exämple.com/✓",
        "GET",
        &["x-note"],
        &["héllo"],
        "køds",
        &[],
        200,
        &[],
        &[],
        "日本語",
        42,
    );
    assert_eq!(digest.as_slice(), &expected);
}

#[test]
fn digest_of_empty_pair_matches_reference_composition() {
    let request = Request {
        url: String::new(),
        method: String::new(),
        headers: vec![],
        excluded_headers: vec![],
        body: String::new(),
        excluded_body: String::new(),
        response_headers: vec![],
    };
    let response = Response {
        handler: 0,
        status: 0,
        headers: vec![],
        body: String::new(),
        timestamp: 0,
        signature: String::new(),
    };
    let digest =
        OysterHttpsResponse::new(request, response, String::new())._create_digest();
    let expected = reference_digest("", "", &[], &[], "", &[], 0, &[], &[], "", 0);
    assert_eq!(digest.as_slice(), &expected);
}
