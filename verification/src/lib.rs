//! Request-scoped cookie state for HTTP services.
//!
//! A request's `Cookie` headers are decoded into a jar, the jar is shared
//! with the request's handler through a [`CookieManager`], and what the
//! handler changed is written back as `Set-Cookie` headers of the response.
//!
//! - [`cookie`] holds the cookie itself.
//! - [`jar`] holds the operations on a jar, which is a
//!   `cookie_rs::CookieJar`.
//! - [`manager`] holds the manager: a handle to the jar behind a lock, which
//!   every clone shares.
//! - [`middleware`] holds the layer and the middleware: what is done before
//!   and after the handler runs.
//! - [`outcome`] holds what decoding came to, and the slot of the request
//!   through which the handler gets it.
//! - [`headers`] holds what the library reads from and writes to the
//!   headers of a message, which are an `http::HeaderMap`.
//! - [`laws`] holds what is proved of the operations taken together.
//! - [`prelude`] holds the names that a service with cookies needs.
//!
//! Only changes are written back. A cookie that came with the request and
//! that the handler did not store again or remove gives no `Set-Cookie`
//! header; a removed name gives one that tells the client to drop it.
//!
//! A request with several `Cookie` headers is decoded as if it had one,
//! with their values joined by `"; "`.

pub mod cookie;
pub mod headers;
pub mod jar;
pub mod laws;
pub mod manager;
pub mod middleware;
pub mod outcome;
pub mod prelude;
pub mod text;

pub use cookie::Cookie;
pub use cookie::CookieView;
pub use cookie::SameSite;
pub use manager::CookieManager;
pub use middleware::CookieLayer;
pub use middleware::CookieMiddleware;
pub use middleware::EmitError;
pub use outcome::ParseOutcome;
pub use outcome::Rejection;
