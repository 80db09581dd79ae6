//! Compressed theme assets: `.svgz` files are gzip streams of SVG text.

use std::io::Read;
use vstd::prelude::*;
use crate::paths::{path_ext, path_extension};
use crate::text::{chars_of, eq_str};

verus! {

#[verifier::external_type_specification]
#[verifier::external_body]
pub struct ExIoError(std::io::Error);

/// The bytes that a gzip stream decompresses to, or `None` when it is no
/// valid stream.
pub uninterp spec fn gunzipped(data: Seq<u8>) -> Option<Seq<u8>>;

/// `flate2::read::GzDecoder` read to the end. Claimed: the result is
/// [`gunzipped`] of the input; what the error holds is left unsaid.
#[verifier::external_body]
pub(crate) fn gunzip(data: &[u8]) -> (r: Result<Vec<u8>, std::io::Error>)
    ensures
        match r {
            Ok(v) => gunzipped(data@) == Some(v@),
            Err(_) => gunzipped(data@) is None,
        },
{
    let mut out = Vec::new();
    flate2::read::GzDecoder::new(data).read_to_end(&mut out).map(|_| out)
}

/// `std::io::Error`'s message (`ToString`); nothing is claimed of it.
#[verifier::external_body]
pub(crate) fn io_error_text(e: &std::io::Error) -> String {
    e.to_string()
}

/// Whether a path names a compressed asset (extension `svgz`).
pub open spec fn is_svgz_path(path: Seq<char>) -> bool {
    path_ext(path) == Some("svgz"@)
}

/// The SVG bytes of an asset read from `path`: decompressed when the path
/// has the `svgz` extension, as read otherwise.
pub fn decode_asset(path: &str, raw: Vec<u8>) -> (r: Result<Vec<u8>, std::io::Error>)
    ensures
        if is_svgz_path(path@) {
            match r {
                Ok(v) => gunzipped(raw@) == Some(v@),
                Err(_) => gunzipped(raw@) is None,
            }
        } else {
            r matches Ok(v) && v@ == raw@
        },
{
    let svgz = match path_extension(path) {
        Some(e) => {
            let c = chars_of(e.as_str());
            eq_str(&c, "svgz")
        },
        None => false,
    };
    if svgz {
        gunzip(raw.as_slice())
    } else {
        Ok(raw)
    }
}

} // verus!
