//! Attested-fetch protocol library.
//!
//! A proxy inside a trusted-execution environment performs an HTTP request on
//! behalf of a caller and signs a digest that binds the exact request
//! parameters and the observed response.  A remote verifier recomputes the
//! same digest, recovers the signing key from the recoverable signature, and
//! compares it against the key attested by the enclave's hardware.
//!
//! The crate covers the correctness-critical core: the canonical,
//! domain-separated encoding of request/response data into a signing digest,
//! recoverable-signature creation and verification over that digest, and the
//! selective-disclosure rules deciding which fields are committed.  Transport
//! (HTTP client and server plumbing) and attestation retrieval live outside
//! this crate.

pub mod abi;
pub mod crypto;
pub mod encode;
pub mod hex;
pub mod model;
pub mod order;
pub mod protocol;
