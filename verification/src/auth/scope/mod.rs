//! Authorization scopes: one `<resource>:<action>` string per
//! network-exposed operation, plus the `*` and `<resource>:*` wildcards.

pub mod presets;
pub mod types;
pub mod name;
pub mod validate;

pub use types::{ParseScopeError, Scope};
pub use validate::{granted_allows, join_scopes, validate_string, validate_token, RESOURCES};
