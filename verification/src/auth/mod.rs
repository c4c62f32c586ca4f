//! Authentication and authorization: Ed25519-signed JWT bearer tokens
//! from a single trusted issuer key, with authorization derived from the
//! token's `scope` claim.

pub mod codec;
pub mod ed25519;
pub mod issuer;
pub mod jwt;
pub mod middleware;
pub mod scope;
