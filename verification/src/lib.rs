//! A URL-shortener core: random short-code generation, strict URL validation,
//! and an in-memory link store that enforces code uniqueness with a bounded
//! collision-retry loop.

pub mod generator;
pub mod laws;
pub mod store;
pub mod validate;
