//! The configuration surface consumed by the client: timeout, target comic,
//! output format and save flag. Argument parsing itself happens outside the
//! library; it hands over a plain `Args` value.

use vstd::prelude::*;

verus! {

/// Parsed invocation options.
pub struct Args {
    /// Connect/overall timeout for the metadata request, in seconds.
    pub timeout: u64,
    /// Requested output format.
    pub output: OutFormat,
    /// The comic to load; `None` selects the latest comic.
    pub num: Option<usize>,
    /// Whether to download the comic's image to the current directory.
    pub save: bool,
}

/// The closed set of output formats.
#[derive(Clone, Copy, Debug, PartialEq, Eq, Structural)]
pub enum OutFormat {
    Json,
    Text,
}

} // verus!
