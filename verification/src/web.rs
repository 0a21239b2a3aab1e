//! What the service decides about a request before it is served.

pub mod mw_auth;
