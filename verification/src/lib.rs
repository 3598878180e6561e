//! Fetch metadata for an xkcd comic, optionally download its image, and
//! print the result as text or JSON.
//!
//! The verified library holds the request-URL construction, the mapping from
//! the wire-shape record to the domain record, the output formatting, and the
//! extraction of the image file name. Network and file I/O live outside it.

pub mod cli;
pub mod client;
pub mod outside;
pub mod render;

use vstd::prelude::*;

verus! {

/// The fixed root address of the remote comic API.
pub const BASE_URL: &'static str = "https://xkcd.com";

/// The kinds of failure a comic retrieval can surface.
#[derive(Clone, Copy, Debug, PartialEq, Eq, Structural)]
pub enum XkcdError {
    /// Connection, timeout or transport failure on an HTTP call.
    NetworkError,
    /// Malformed or incomplete JSON in the metadata response.
    ParseError,
    /// The image URL cannot be parsed or has no extractable file name.
    InvalidUrlError,
    /// File creation or write failure.
    FileSystemError,
    /// Output encoding failure.
    SerializationError,
}

} // verus!
