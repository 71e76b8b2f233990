//! Response bodies of the web endpoints.
//!
//! The core decides what a response holds; the web layer around the library
//! attaches status codes, content types and the content disposition.

use vstd::prelude::*;

verus! {

/// The payload of a response, by kind.
pub enum GeoHubResponse {
    /// Plain-text success.
    Plain(String),
    /// A JSON document.
    Json(String),
    /// A GPX document.
    Gpx(String),
    /// The request was malformed; the body says how.
    BadRequest(String),
    /// The server failed; the body says how.
    ServerError(String),
}

} // verus!
