//! Element naming of `KSvg` `FrameSvg` frames: the border flags, the
//! center element that tells whether a prefix exists, and the normalized
//! element prefix; and the SVG text a document is loaded from.

use vstd::prelude::*;
use vstd::string::StringSliceAdditionalSpecFns;
use crate::plasma::xml::{bytes_result, substitute_color_scheme, substituted};
use crate::svgz::{gunzip, gunzipped, io_error_text};
use crate::text::{chars_of, push_str, starts_with};

verus! {

/// `FrameSvg::LeftBorder`.
pub const BORDER_LEFT: u8 = 1;
/// `FrameSvg::RightBorder`.
pub const BORDER_RIGHT: u8 = 2;
/// `FrameSvg::TopBorder`.
pub const BORDER_TOP: u8 = 4;
/// `FrameSvg::BottomBorder`.
pub const BORDER_BOTTOM: u8 = 8;
/// `FrameSvg::AllBorders`.
pub const ALL_BORDERS: u8 = 15;

/// The center element of the frame with prefix `p`: `center`, `<p>center`
/// when `p` already ends with a dash, else `<p>-center`.
pub open spec fn center_id(p: Seq<char>) -> Seq<char> {
    if p.len() == 0 {
        "center"@
    } else if p.last() == '-' {
        p + "center"@
    } else {
        p + "-center"@
    }
}

/// The id of the center element of the frame with prefix `prefix` (the
/// element whose presence `FrameSvg::hasElementPrefix` checks).
pub fn center_element(prefix: &str) -> (r: String)
    ensures
        r@ == center_id(prefix@),
{
    let p = chars_of(prefix);
    let mut s = String::new();
    if p.len() == 0 {
        push_str(&mut s, "center");
        proof {
            reveal_strlit("");
        }
        assert(s@ =~= "center"@);
    } else if p[p.len() - 1] == '-' {
        push_str(&mut s, prefix);
        push_str(&mut s, "center");
        assert(s@ =~= prefix@ + "center"@);
    } else {
        push_str(&mut s, prefix);
        push_str(&mut s, "-center");
        assert(s@ =~= prefix@ + "-center"@);
    }
    s
}

/// The element prefix `FrameSvg::setElementPrefix` settles on: none for an
/// empty prefix or one without a center element, else the prefix ending in
/// a dash.
pub open spec fn settled_prefix(p: Seq<char>, has_center: bool) -> Seq<char> {
    if p.len() == 0 || !has_center {
        Seq::empty()
    } else if p.last() == '-' {
        p
    } else {
        p + "-"@
    }
}

/// The element prefix to use for `prefix`, given whether its center
/// element exists.
pub fn element_prefix(prefix: &str, has_center: bool) -> (r: String)
    ensures
        r@ == settled_prefix(prefix@, has_center),
{
    let p = chars_of(prefix);
    let mut s = String::new();
    if p.len() == 0 || !has_center {
        assert(s@ =~= Seq::<char>::empty());
    } else if p[p.len() - 1] == '-' {
        push_str(&mut s, prefix);
        assert(s@ =~= prefix@);
    } else {
        push_str(&mut s, prefix);
        push_str(&mut s, "-");
        assert(s@ =~= prefix@ + "-"@);
    }
    s
}

/// The side element painted for a single border flag.
pub open spec fn side_name(border: u8) -> Seq<char> {
    if border == BORDER_LEFT {
        "left"@
    } else if border == BORDER_RIGHT {
        "right"@
    } else if border == BORDER_TOP {
        "top"@
    } else {
        "bottom"@
    }
}

/// The side element painted for a single border flag.
pub fn border_side(border: u8) -> (r: &'static str)
    ensures
        r@ == side_name(border),
{
    if border == BORDER_LEFT {
        "left"
    } else if border == BORDER_RIGHT {
        "right"
    } else if border == BORDER_TOP {
        "top"
    } else {
        "bottom"
    }
}

/// Whether bytes begin with the gzip magic number.
pub open spec fn is_gzip(data: Seq<u8>) -> bool {
    data.len() >= 2 && data[0] == 0x1fu8 && data[1] == 0x8bu8
}

/// The SVG text a document is loaded from: `data` decompressed when it is
/// a gzip stream, then, for a nonempty `stylesheet`, with the
/// `current-color-scheme` style element's content replaced by it (see
/// [`substitute_color_scheme`]). A stream that does not decompress gives a
/// message beginning `failed to gunzip svgz: `.
pub fn svg_source(data: &[u8], stylesheet: &str) -> (r: Result<Vec<u8>, String>)
    ensures
        ({
            let xml = if is_gzip(data@) {
                gunzipped(data@)
            } else {
                Some(data@)
            };
            match xml {
                None => r matches Err(m) && starts_with(m@, "failed to gunzip svgz: "@),
                Some(x) => if stylesheet@.len() == 0 {
                    bytes_result(r) == Ok::<Seq<u8>, Seq<char>>(x)
                } else {
                    bytes_result(r) == substituted(x, stylesheet.spec_bytes())
                },
            }
        }),
{
    let xml: Vec<u8> = if data.len() >= 2 && data[0] == 0x1fu8 && data[1] == 0x8bu8 {
        match gunzip(data) {
            Ok(v) => v,
            Err(e) => {
                let mut m = String::new();
                push_str(&mut m, "failed to gunzip svgz: ");
                let ghost head = m@;
                push_str(&mut m, io_error_text(&e).as_str());
                proof {
                    assert(m@.subrange(0, head.len() as int) =~= head);
                }
                return Err(m);
            },
        }
    } else {
        let mut v: Vec<u8> = Vec::new();
        let mut i: usize = 0;
        while i < data.len()
            invariant
                i <= data@.len(),
                v@ == data@.subrange(0, i as int),
            decreases data.len() - i,
        {
            v.push(data[i]);
            i = i + 1;
            assert(v@ =~= data@.subrange(0, i as int));
        }
        assert(data@.subrange(0, data@.len() as int) =~= data@);
        v
    };
    let sheet = chars_of(stylesheet);
    if sheet.len() == 0 {
        Ok(xml)
    } else {
        substitute_color_scheme(xml.as_slice(), stylesheet)
    }
}

} // verus!
