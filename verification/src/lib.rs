//! Stub matching and stub generation for an HTTP mock server.
//!
//! A stub document declares which requests it answers and what it answers
//! with. This crate turns such a document into a request predicate, renders
//! its response, orders documents for registration, and builds documents
//! from observed exchanges.

pub mod text;
pub mod pattern;
pub mod json;
pub mod response;
pub mod matcher;
pub mod fields;
pub mod url;
pub mod request;
pub mod request_stub;
pub mod mapping;
pub mod stub;
pub mod record;
