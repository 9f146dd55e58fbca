//! Credential lifecycle for a third-party-authenticated web service:
//! building identity claim sets, signing them into compact RS512 tokens,
//! verifying incoming tokens under a strict validation policy, and
//! resolving signing keys through an ordered fallback chain of sources.

pub mod b64url;
pub mod claims;
pub mod errors;
pub mod json;
pub mod json_read;
pub mod json_write;
pub mod resolver;
pub mod text;
pub mod token;
pub mod user;
