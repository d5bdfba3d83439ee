//! IBM 3270 data stream handling (RFC 1205, RFC 2355).

pub mod codes;
pub mod display;
pub mod field;
pub mod protocol;
