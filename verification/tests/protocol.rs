//! End-to-end tests of the attested-fetch protocol: signing, verification,
//! canonical encoding and the selective-disclosure rules, run against the
//! real cryptographic crates.

use teefetch::model::{Request, Response};
use teefetch::protocol::{
    build_signed_response, signer_public_key, sol_data, OysterHttpsResponse, SignError,
    VerifyError,
};

fn test_secret() -> [u8; 32] {
    let mut s = [0u8; 32];
    s[31] = 7;
    s[0] = 1;
    s
}

fn simple_request() -> Request {
    Request {
        url: String::from("https://example.com"),
        method: String::from("GET"),
        headers: vec![],
        excluded_headers: vec![],
        body: String::from(""),
        excluded_body: String::from(""),
        response_headers: vec![],
    }
}

fn html_body() -> String {
    String::from("<html>...</html>")
}

#[test]
fn scenario_sign_and_verify() {
    let secret = test_secret();
    let request = simple_request();
    let response = build_signed_response(&request, 200, &vec![], html_body(), 1700000000, &secret)
        .unwrap();
    assert_eq!(response.handler, 1);
    assert_eq!(response.status, 200);
    assert_eq!(response.timestamp, 1700000000);
    assert!(response.headers.is_empty());
    assert!(response.signature.starts_with("0x"));
    assert_eq!(response.signature.len(), 132);
    let pubkey = signer_public_key(&secret).unwrap();
    assert_eq!(pubkey.len(), 64);
    let paired = OysterHttpsResponse::new(request, response, String::from("127.0.0.1"));
    assert_eq!(paired.verify(&pubkey), Ok(()));
}

#[test]
fn scenario_digest_is_stable() {
    let make = || {
        OysterHttpsResponse::new(
            simple_request(),
            Response {
                handler: 1,
                status: 200,
                headers: vec![],
                body: html_body(),
                timestamp: 1700000000,
                signature: String::new(),
            },
            String::from("127.0.0.1"),
        )
    };
    let d1 = make()._create_digest();
    let d2 = make()._create_digest();
    assert_eq!(d1.len(), 32);
    assert_eq!(d1, d2);
}

#[test]
fn scenario_timestamp_change_invalidates() {
    let secret = test_secret();
    let request = simple_request();
    let signed = build_signed_response(&request, 200, &vec![], html_body(), 1700000000, &secret)
        .unwrap();
    let original_digest = OysterHttpsResponse::new(
        simple_request(),
        Response {
            handler: signed.handler,
            status: signed.status,
            headers: vec![],
            body: html_body(),
            timestamp: 1700000000,
            signature: signed.signature.clone(),
        },
        String::from("h"),
    )
    ._create_digest();
    let tampered = OysterHttpsResponse::new(
        simple_request(),
        Response {
            handler: signed.handler,
            status: signed.status,
            headers: vec![],
            body: html_body(),
            timestamp: 1700000001,
            signature: signed.signature.clone(),
        },
        String::from("h"),
    );
    assert_ne!(tampered._create_digest(), original_digest);
    let pubkey = signer_public_key(&secret).unwrap();
    assert!(tampered.verify(&pubkey).is_err());
}

#[test]
fn digest_sensitivity_per_field() {
    let base = || {
        (
            Request {
                url: String::from("https://example.com"),
                method: String::from("GET"),
                headers: vec![(String::from("a"), String::from("1"))],
                excluded_headers: vec![],
                body: String::from("b"),
                excluded_body: String::from(""),
                response_headers: vec![String::from("date")],
            },
            Response {
                handler: 1,
                status: 200,
                headers: vec![(String::from("date"), String::from("now"))],
                body: String::from("body"),
                timestamp: 5,
                signature: String::new(),
            },
        )
    };
    let digest = |rq: Request, rs: Response| {
        OysterHttpsResponse::new(rq, rs, String::from("h"))._create_digest()
    };
    let (rq0, rs0) = base();
    let d0 = digest(rq0, rs0);
    // each committed field flips the digest
    let (mut rq, rs) = base();
    rq.url = String::from("https://example.org");
    assert_ne!(digest(rq, rs), d0);
    let (mut rq, rs) = base();
    rq.method = String::from("POST");
    assert_ne!(digest(rq, rs), d0);
    let (mut rq, rs) = base();
    rq.headers[0].0 = String::from("x");
    assert_ne!(digest(rq, rs), d0);
    let (mut rq, rs) = base();
    rq.headers[0].1 = String::from("2");
    assert_ne!(digest(rq, rs), d0);
    let (mut rq, rs) = base();
    rq.body = String::from("c");
    assert_ne!(digest(rq, rs), d0);
    let (mut rq, rs) = base();
    rq.response_headers = vec![String::from("server")];
    assert_ne!(digest(rq, rs), d0);
    let (rq, mut rs) = base();
    rs.status = 404;
    assert_ne!(digest(rq, rs), d0);
    let (rq, mut rs) = base();
    rs.headers[0].1 = String::from("later");
    assert_ne!(digest(rq, rs), d0);
    let (rq, mut rs) = base();
    rs.body = String::from("other");
    assert_ne!(digest(rq, rs), d0);
    let (rq, mut rs) = base();
    rs.timestamp = 6;
    assert_ne!(digest(rq, rs), d0);
}

#[test]
fn digest_ignores_uncommitted_and_order() {
    let rs = || Response {
        handler: 1,
        status: 200,
        headers: vec![
            (String::from("x"), String::from("1")),
            (String::from("a"), String::from("2")),
        ],
        body: String::from("body"),
        timestamp: 5,
        signature: String::new(),
    };
    let rq1 = Request {
        url: String::from("u"),
        method: String::from("GET"),
        headers: vec![
            (String::from("k2"), String::from("v2")),
            (String::from("k1"), String::from("v1")),
        ],
        excluded_headers: vec![(String::from("authorization"), String::from("secret"))],
        body: String::from(""),
        excluded_body: String::from("hidden"),
        response_headers: vec![],
    };
    let rq2 = Request {
        url: String::from("u"),
        method: String::from("GET"),
        headers: vec![
            (String::from("k1"), String::from("v1")),
            (String::from("k2"), String::from("v2")),
        ],
        excluded_headers: vec![],
        body: String::from(""),
        excluded_body: String::from(""),
        response_headers: vec![],
    };
    // response header order is canonicalized too
    let mut rs2 = rs();
    rs2.headers.reverse();
    let d1 = OysterHttpsResponse::new(rq1, rs(), String::from("h"))._create_digest();
    let d2 = OysterHttpsResponse::new(rq2, rs2, String::from("h"))._create_digest();
    assert_eq!(d1, d2);
}

#[test]
fn undisclosed_response_headers_are_dropped() {
    let secret = test_secret();
    let mut request = simple_request();
    request.response_headers = vec![String::from("date")];
    let observed = vec![
        (String::from("date"), String::from("today")),
        (String::from("server"), String::from("hidden/1.0")),
    ];
    let response =
        build_signed_response(&request, 200, &observed, String::from(""), 1, &secret).unwrap();
    assert_eq!(response.headers, vec![(String::from("date"), String::from("today"))]);
    // the undisclosed header plays no part in the digest either
    let without = build_signed_response(
        &request,
        200,
        &vec![(String::from("date"), String::from("today"))],
        String::from(""),
        1,
        &secret,
    )
    .unwrap();
    assert_eq!(response.signature, without.signature);
}

#[test]
fn signing_is_deterministic() {
    let secret = test_secret();
    let request = simple_request();
    let r1 = build_signed_response(&request, 200, &vec![], html_body(), 1700000000, &secret)
        .unwrap();
    let r2 = build_signed_response(&request, 200, &vec![], html_body(), 1700000000, &secret)
        .unwrap();
    assert_eq!(r1.signature, r2.signature);
}

#[test]
fn invalid_secret_is_rejected() {
    let request = simple_request();
    let zero = [0u8; 32];
    assert!(matches!(
        build_signed_response(&request, 200, &vec![], String::new(), 0, &zero),
        Err(SignError::InvalidSecretKey)
    ));
    assert!(signer_public_key(&zero).is_none());
}

#[test]
fn tampered_signature_fails() {
    let secret = test_secret();
    let request = simple_request();
    let response = build_signed_response(&request, 200, &vec![], html_body(), 1700000000, &secret)
        .unwrap();
    let pubkey = signer_public_key(&secret).unwrap();
    // flip one bit in the first signature byte (one hex digit after "0x")
    let mut text: Vec<char> = response.signature.chars().collect();
    text[2] = if text[2] == '0' { '1' } else { '0' };
    let tampered: String = text.into_iter().collect();
    let paired = OysterHttpsResponse::new(
        simple_request(),
        Response { signature: tampered, ..response },
        String::from("h"),
    );
    assert!(paired.verify(&pubkey).is_err());
}

#[test]
fn substituted_field_fails_verification() {
    let secret = test_secret();
    let request = simple_request();
    let response = build_signed_response(&request, 200, &vec![], html_body(), 1700000000, &secret)
        .unwrap();
    let pubkey = signer_public_key(&secret).unwrap();
    let mut request2 = simple_request();
    request2.url = String::from("https://evil.example.com");
    let paired = OysterHttpsResponse::new(request2, response, String::from("h"));
    assert!(paired.verify(&pubkey).is_err());
}

#[test]
fn recovery_marker_bounds() {
    let secret = test_secret();
    let request = simple_request();
    let response = build_signed_response(&request, 200, &vec![], html_body(), 1700000000, &secret)
        .unwrap();
    let pubkey = signer_public_key(&secret).unwrap();
    let good = response.signature.clone();
    // marker 26 -> "1a", marker 29 -> "1d": rejected before recovery
    for bad_marker in ["1a", "1d", "00", "ff"] {
        let mut text = good[..good.len() - 2].to_string();
        text.push_str(bad_marker);
        let paired = OysterHttpsResponse::new(
            simple_request(),
            Response { signature: text, ..clone_response(&response) },
            String::from("h"),
        );
        assert_eq!(paired.verify(&pubkey), Err(VerifyError::InvalidRecoveryId));
    }
}

fn clone_response(r: &Response) -> Response {
    Response {
        handler: r.handler,
        status: r.status,
        headers: r.headers.clone(),
        body: r.body.clone(),
        timestamp: r.timestamp,
        signature: r.signature.clone(),
    }
}

#[test]
fn malformed_signatures_are_rejected() {
    let secret = test_secret();
    let pubkey = signer_public_key(&secret).unwrap();
    let with_signature = |sig: &str| {
        OysterHttpsResponse::new(
            simple_request(),
            Response {
                handler: 1,
                status: 200,
                headers: vec![],
                body: String::new(),
                timestamp: 0,
                signature: String::from(sig),
            },
            String::from("h"),
        )
    };
    // odd number of digits
    assert_eq!(
        with_signature("0xabc").verify(&pubkey),
        Err(VerifyError::MalformedSignature)
    );
    // not hex
    assert_eq!(
        with_signature("0xzz").verify(&pubkey),
        Err(VerifyError::MalformedSignature)
    );
    // wrong length (64 bytes, marker missing)
    let short = format!("0x{}", "ab".repeat(64));
    assert_eq!(
        with_signature(&short).verify(&pubkey),
        Err(VerifyError::MalformedSignature)
    );
}

#[test]
fn get_signature_returns_the_wire_text() {
    let response = Response {
        handler: 1,
        status: 200,
        headers: vec![],
        body: String::new(),
        timestamp: 0,
        signature: String::from("0xabcd"),
    };
    let paired = OysterHttpsResponse::new(simple_request(), response, String::from("h"));
    assert_eq!(paired.get_signature(), "0xabcd");
}

#[test]
fn sol_data_sorts_and_fixes_handler() {
    let request = Request {
        url: String::from("u"),
        method: String::from("GET"),
        headers: vec![
            (String::from("b"), String::from("2")),
            (String::from("a"), String::from("1")),
        ],
        excluded_headers: vec![],
        body: String::from(""),
        excluded_body: String::from(""),
        response_headers: vec![String::from("date")],
    };
    let response = Response {
        handler: 42,
        status: 200,
        headers: vec![],
        body: String::new(),
        timestamp: 9,
        signature: String::new(),
    };
    let data = sol_data(&request, &response);
    assert_eq!(data.requestData.headerKeys, vec![String::from("a"), String::from("b")]);
    assert_eq!(data.requestData.headerValues, vec![String::from("1"), String::from("2")]);
    // the handler tag names the encoding scheme, not the wire value
    assert_eq!(data.responseData.handler, 1);
    assert_eq!(data.responseData.timestamp, 9);
}
