//! A minimal HTTP/1.1 client library.
//!
//! The library builds a request descriptor with a fluent [`builder::Builder`],
//! renders it into the exact HTTP/1.1 wire text, and parses a raw response
//! text into a structured [`response::Response`].  Opening the TCP connection
//! and moving bytes is left to the embedding program; everything with
//! protocol logic in it lives here, with contracts.

/// Request builder and URI resolution.
pub mod builder;
/// Error values carrying a descriptive message.
pub mod errors;
/// Insertion-ordered header mapping with upsert semantics.
pub mod headers;
/// Request type and its wire-format serializer.
pub mod request;
/// Response type and the response-text parser.
pub mod response;
/// Enumerated HTTP status codes.
pub mod status_code;
/// Character-sequence utilities: searching, splitting, decimal numerals.
pub mod text;

pub use builder::ValidBuilder;
pub use request::ValidRequest;
pub use response::ValidResponse;
pub use status_code::StatusCode;
