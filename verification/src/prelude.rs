//! The names that a service with cookies needs.

pub use crate::cookie::Cookie;
pub use crate::cookie::SameSite;
pub use crate::manager::CookieManager;
pub use crate::middleware::CookieLayer;
pub use cookie_rs::CookieJar;
