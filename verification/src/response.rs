//! Typed shapes of the remote API's JSON responses, as far as the verified
//! pipeline reads them. The unverified shell decodes the HTTP body into
//! mirror types and converts into these.

pub mod key;
pub mod keys;
