//! The errors of theme generation that the library itself raises.

use vstd::prelude::*;

verus! {

/// Errors produced by theme generation.
#[derive(Debug)]
pub enum Error {
    /// Invalid color value in a config file.
    InvalidColor {
        /// The file containing the bad value.
        path: String,
        /// The key.
        key: String,
        /// The raw value.
        value: String,
    },
    /// A required SVG element is missing.
    MissingElement {
        /// The SVG file.
        path: String,
        /// The element id.
        element: String,
    },
    /// Pixmap allocation failure.
    Alloc {
        /// Width.
        width: u32,
        /// Height.
        height: u32,
    },
    /// Other failure.
    Other(String),
}

} // verus!
