//! Checks the library's ABI encoding against alloy's dynamic encoder, and
//! the hex codec against concrete values.

use alloy::dyn_abi::DynSolValue;
use alloy::primitives::U256;
use teefetch::hex::{hex_decode_bytes, hex_encode_bytes};
use teefetch::model::{Request, Response};
use teefetch::protocol::sol_data;

fn str_val(s: &str) -> DynSolValue {
    DynSolValue::String(String::from(s))
}

fn str_array(items: &[&str]) -> DynSolValue {
    DynSolValue::Array(items.iter().map(|s| str_val(s)).collect())
}

fn reference_encoding(
    url: &str,
    method: &str,
    header_keys: &[&str],
    header_values: &[&str],
    body: &str,
    response_headers: &[&str],
    handler: u8,
    status: u16,
    resp_keys: &[&str],
    resp_values: &[&str],
    resp_body: &str,
    timestamp: u64,
) -> Vec<u8> {
    let request_data = DynSolValue::Tuple(vec![
        str_val(url),
        str_val(method),
        str_array(header_keys),
        str_array(header_values),
        str_val(body),
        str_array(response_headers),
    ]);
    let response_data = DynSolValue::Tuple(vec![
        DynSolValue::Uint(U256::from(handler), 8),
        DynSolValue::Uint(U256::from(status), 16),
        str_array(resp_keys),
        str_array(resp_values),
        str_val(resp_body),
        DynSolValue::Uint(U256::from(timestamp), 64),
    ]);
    DynSolValue::Tuple(vec![request_data, response_data]).abi_encode_params()
}

#[test]
fn abi_encoding_matches_reference_encoder() {
    let request = Request {
        url: String::from("https://example.com/x"),
        method: String::from("POST"),
        headers: vec![
            (String::from("a"), String::from("1")),
            (String::from("content-type"), String::from("application/json")),
        ],
        excluded_headers: vec![],
        body: String::from("{\"q\":\"rust verification\"}"),
        excluded_body: String::from(""),
        response_headers: vec![String::from("date"), String::from("server")],
    };
    let response = Response {
        handler: 9,
        status: 404,
        headers: vec![
            (String::from("date"), String::from("Mon, 01 Jan 2024 00:00:00 GMT")),
            (String::from("server"), String::from("unit/1")),
        ],
        body: String::from("not found"),
        timestamp: 1700000000,
        signature: String::new(),
    };
    let mine = teefetch::protocol::OysterHttpsResponse::new(
        request,
        response,
        String::from("h"),
    )
    .abi_encode();
    // header lists reach the encoder canonically sorted, the handler fixed
    let expected = reference_encoding(
        "https://example.com/x",
        "POST",
        &["a", "content-type"],
        &["1", "application/json"],
        "{\"q\":\"rust verification\"}",
        &["date", "server"],
        1,
        404,
        &["date", "server"],
        &["Mon, 01 Jan 2024 00:00:00 GMT", "unit/1"],
        "not found",
        1700000000,
    );
    assert_eq!(mine, expected);
}

#[test]
fn abi_encoding_of_empty_fields_matches_reference_encoder() {
    let request = Request {
        url: String::from(""),
        method: String::from(""),
        headers: vec![],
        excluded_headers: vec![],
        body: String::from(""),
        excluded_body: String::from(""),
        response_headers: vec![],
    };
    let response = Response {
        handler: 0,
        status: 0,
        headers: vec![],
        body: String::from(""),
        timestamp: 0,
        signature: String::new(),
    };
    let data = sol_data(&request, &response);
    let mine = teefetch::abi::abi_encode_params(&data);
    let expected = reference_encoding("", "", &[], &[], "", &[], 1, 0, &[], &[], "", 0);
    assert_eq!(mine, expected);
}

#[test]
fn hex_encodes_lowercase_pairs() {
    assert_eq!(hex_encode_bytes(&[0xde, 0xad, 0x01, 0x00]), b"dead0100".to_vec());
    assert_eq!(hex_encode_bytes(&[]), Vec::<u8>::new());
}

#[test]
fn hex_decodes_with_and_without_prefix() {
    assert_eq!(hex_decode_bytes(b"0xdead"), Some(vec![0xde, 0xad]));
    assert_eq!(hex_decode_bytes(b"DEad"), Some(vec![0xde, 0xad]));
    assert_eq!(hex_decode_bytes(b""), Some(vec![]));
    assert_eq!(hex_decode_bytes(b"0x"), Some(vec![]));
    // odd length and stray characters are rejected
    assert_eq!(hex_decode_bytes(b"0xabc"), None);
    assert_eq!(hex_decode_bytes(b"zz"), None);
    assert_eq!(hex_decode_bytes(b"0x0g"), None);
}

#[test]
fn hex_round_trips_through_alloy() {
    let bytes: Vec<u8> = (0u16..=255).map(|b| b as u8).collect();
    let mine = hex_encode_bytes(&bytes);
    assert_eq!(String::from_utf8(mine.clone()).unwrap(), alloy::hex::encode(&bytes));
    assert_eq!(hex_decode_bytes(&mine), Some(bytes));
}
