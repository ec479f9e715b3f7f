//! Cross-origin resource sharing (CORS) for an object store.
//!
//! A bucket carries a list of CORS rules. The library decides which of them, if any, allows a
//! request, answers preflight requests, and sets the CORS headers of a response. Header fields
//! are held in `http::HeaderMap`; what the library relies on of it is stated in [`headers`].
pub mod error;
pub mod grant;
pub mod headers;
pub mod laws;
pub mod message;
pub mod preflight;
pub mod rules;
pub mod text;
