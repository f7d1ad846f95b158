//! Verified core of the TTL-Legacy backend: per-client request rate limiting,
//! client address extraction from forwarding headers, the numeric payload
//! decoders of the multi-signature path, the request-level decisions of the
//! HTTP routes, and the reading of raw fuzz input as a multi-signature
//! proposal.

pub mod headers;
pub mod multisig_input;
pub mod payload;
pub mod rate_limit;
pub mod routes;
