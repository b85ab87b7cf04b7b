//! Mirroring of an upstream change feed into a local store.
//!
//! The feed is polled page by page. Every page is reconciled against the
//! local store under a last-writer-wins rule, and a durable watermark moves
//! forward only once a page has been applied in full. Beside it stands the
//! logged-in user, as an authenticating proxy announces it in headers.

pub mod model;
pub mod store;
pub mod laws;
pub mod sync;
pub mod driver;
pub mod decode;
pub mod user;
pub mod query;
