//! Release-notes aggregation for a desktop application.
//!
//! Given the running application's semantic version, the library decides
//! everything about assembling human-readable release notes from a remote
//! release listing: which releases qualify (strictly newer, parseable
//! tag), their order (newest first), each release's section (authored body
//! verbatim, or bullets from merged change requests), the request lines to
//! send, and the one message each failure turns into. The caller performs
//! the HTTP requests and hands the plain records back.

pub mod facade;
pub mod fetch;
pub mod github;
pub mod render;
pub mod text;
pub mod version;
