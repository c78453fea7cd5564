//! Recognition and pricing of the relic reward screen: the log-driven
//! capture lifecycle, OCR text cleanup, catalog matching and order-based
//! pricing, each stated and proved over mathematical models.
//!
//! Screen capture, OCR, HTTP and file access stay with the caller: the
//! library says what to read next and decides from what was read.

pub mod cache;
pub mod catalog;
pub mod engine;
pub mod geometry;
pub mod lifecycle;
pub mod log_entry;
pub mod net;
pub mod orders;
pub mod recognizer;
pub mod session;
pub mod text;
