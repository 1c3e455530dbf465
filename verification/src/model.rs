//! Data model of the attested-fetch protocol.
//!
//! `Request` is the caller's intent; `Response` is the proxy-observed
//! outcome.  `RequestData`, `ResponseData` and `RequestResponseData` form
//! the canonical signing schema derived from them: the exact structure that
//! is encoded and hashed into the signing digest.
//!
//! Header mappings are held as lists of name/value pairs; the canonical
//! encoder fixes their order (see `order`), so callers may supply them in
//! any order.

use vstd::prelude::*;

verus! {

/// A caller-supplied fetch intent.
///
/// `headers` and `body` are committed to the signing digest;
/// `excluded_headers` and `excluded_body` are sent on the wire but never
/// committed.  `response_headers` lists the response header names the caller
/// wants disclosed and committed.
///
/// A name appearing in both header sets is sent twice on the wire (committed
/// first, then uncommitted, appended in that order); only the committed pair
/// enters the digest.  `excluded_body` is reserved: it is carried for
/// interface parity, ignored by the proxy and never committed.
pub struct Request {
    pub url: String,
    pub method: String,
    pub headers: Vec<(String, String)>,
    pub excluded_headers: Vec<(String, String)>,
    pub body: String,
    pub excluded_body: String,
    pub response_headers: Vec<String>,
}

/// Specification view of a `Request`.
pub struct RequestV {
    pub url: Seq<char>,
    pub method: Seq<char>,
    pub headers: Seq<(Seq<char>, Seq<char>)>,
    pub excluded_headers: Seq<(Seq<char>, Seq<char>)>,
    pub body: Seq<char>,
    pub excluded_body: Seq<char>,
    pub response_headers: Seq<Seq<char>>,
}

impl View for Request {
    type V = RequestV;

    open spec fn view(&self) -> RequestV {
        RequestV {
            url: self.url@,
            method: self.method@,
            headers: self.headers.deep_view(),
            excluded_headers: self.excluded_headers.deep_view(),
            body: self.body@,
            excluded_body: self.excluded_body@,
            response_headers: self.response_headers.deep_view(),
        }
    }
}

/// The proxy-observed outcome of a fetch.
///
/// `headers` holds only the disclosed response headers; `signature` is the
/// hex-encoded 65-byte recoverable signature over the signing digest.
pub struct Response {
    pub handler: u8,
    pub status: u16,
    pub headers: Vec<(String, String)>,
    pub body: String,
    pub timestamp: u64,
    pub signature: String,
}

/// Specification view of a `Response`.
pub struct ResponseV {
    pub handler: u8,
    pub status: u16,
    pub headers: Seq<(Seq<char>, Seq<char>)>,
    pub body: Seq<char>,
    pub timestamp: u64,
    pub signature: Seq<char>,
}

impl View for Response {
    type V = ResponseV;

    open spec fn view(&self) -> ResponseV {
        ResponseV {
            handler: self.handler,
            status: self.status,
            headers: self.headers.deep_view(),
            body: self.body@,
            timestamp: self.timestamp,
            signature: self.signature@,
        }
    }
}

/// Committed request fields in the canonical signing schema, with the header
/// mapping flattened into parallel, canonically ordered key and value lists.
#[allow(non_snake_case)]
pub struct RequestData {
    pub url: String,
    pub method: String,
    pub headerKeys: Vec<String>,
    pub headerValues: Vec<String>,
    pub body: String,
    pub responseHeaders: Vec<String>,
}

/// Specification view of `RequestData`.
pub struct RequestDataV {
    pub url: Seq<char>,
    pub method: Seq<char>,
    pub header_keys: Seq<Seq<char>>,
    pub header_values: Seq<Seq<char>>,
    pub body: Seq<char>,
    pub response_headers: Seq<Seq<char>>,
}

impl View for RequestData {
    type V = RequestDataV;

    open spec fn view(&self) -> RequestDataV {
        RequestDataV {
            url: self.url@,
            method: self.method@,
            header_keys: self.headerKeys.deep_view(),
            header_values: self.headerValues.deep_view(),
            body: self.body@,
            response_headers: self.responseHeaders.deep_view(),
        }
    }
}

/// Committed response fields in the canonical signing schema.  `handler` is
/// the fixed tag of the encoding scheme, not wire metadata.
#[allow(non_snake_case)]
pub struct ResponseData {
    pub handler: u8,
    pub status: u16,
    pub headerKeys: Vec<String>,
    pub headerValues: Vec<String>,
    pub body: String,
    pub timestamp: u64,
}

/// Specification view of `ResponseData`.
pub struct ResponseDataV {
    pub handler: u8,
    pub status: u16,
    pub header_keys: Seq<Seq<char>>,
    pub header_values: Seq<Seq<char>>,
    pub body: Seq<char>,
    pub timestamp: u64,
}

impl View for ResponseData {
    type V = ResponseDataV;

    open spec fn view(&self) -> ResponseDataV {
        ResponseDataV {
            handler: self.handler,
            status: self.status,
            header_keys: self.headerKeys.deep_view(),
            header_values: self.headerValues.deep_view(),
            body: self.body@,
            timestamp: self.timestamp,
        }
    }
}

/// The full canonical signing structure: committed request and response data.
#[allow(non_snake_case)]
pub struct RequestResponseData {
    pub requestData: RequestData,
    pub responseData: ResponseData,
}

/// Specification view of `RequestResponseData`.
pub struct RequestResponseDataV {
    pub request_data: RequestDataV,
    pub response_data: ResponseDataV,
}

impl View for RequestResponseData {
    type V = RequestResponseDataV;

    open spec fn view(&self) -> RequestResponseDataV {
        RequestResponseDataV { request_data: self.requestData@, response_data: self.responseData@ }
    }
}

} // verus!
