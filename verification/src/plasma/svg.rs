//! Theme SVG naming: where an asset file is looked up, and which element
//! ids belong to a frame (the nine `KSvg` `FrameSvg` slices of a prefix).

use vstd::prelude::*;
use crate::paths::{first_accepted, first_hit, join_path, path_join, path_with_extension, texts, with_extension};
use crate::text::{chars_of, eq_chars, push_str, starts_with, starts_with_str};

verus! {

/// The candidate files of asset `name` in `theme_dir`: under `svg/` first
/// (Plasma 6 layout), then directly in the theme, each as `.svgz`, `.svg`
/// and `.png`.
pub open spec fn asset_candidates(theme_dir: Seq<char>, name: Seq<char>) -> Seq<Seq<char>> {
    let nested = path_join(path_join(theme_dir, "svg"@), name);
    let flat = path_join(theme_dir, name);
    seq![
        path_with_extension(nested, "svgz"@),
        path_with_extension(nested, "svg"@),
        path_with_extension(nested, "png"@),
        path_with_extension(flat, "svgz"@),
        path_with_extension(flat, "svg"@),
        path_with_extension(flat, "png"@),
    ]
}

/// Resolve an asset file: the first of the candidate files (see
/// [`asset_candidates`]) that `is_file` reports to exist.
pub fn resolve_asset<F: Fn(&str) -> bool>(theme_dir: &str, name: &str, is_file: F) -> (r: Option<String>)
    requires
        forall|s: &str| call_requires(is_file, (s,)),
    ensures
        match r {
            Some(p) => exists|i: usize|
                first_hit(is_file, asset_candidates(theme_dir@, name@), Some(i))
                    && p@ == asset_candidates(theme_dir@, name@)[i as int],
            None => first_hit(is_file, asset_candidates(theme_dir@, name@), None),
        },
{
    let svg_dir = join_path(theme_dir, "svg");
    let nested = join_path(svg_dir.as_str(), name);
    let flat = join_path(theme_dir, name);
    let mut cands: Vec<String> = Vec::new();
    proof {
        reveal_strlit("svgz");
        reveal_strlit("svg");
        reveal_strlit("png");
    }
    cands.push(with_extension(nested.as_str(), "svgz"));
    cands.push(with_extension(nested.as_str(), "svg"));
    cands.push(with_extension(nested.as_str(), "png"));
    cands.push(with_extension(flat.as_str(), "svgz"));
    cands.push(with_extension(flat.as_str(), "svg"));
    cands.push(with_extension(flat.as_str(), "png"));
    assert(texts(cands@) =~= asset_candidates(theme_dir@, name@));
    match first_accepted(&cands, is_file) {
        Some(i) => {
            let p = cands.remove(i);
            Some(p)
        },
        None => None,
    }
}

/// The nine 9-slice frame element suffixes, mirroring `KSvg` `FrameSvg`.
pub open spec fn frame_slices() -> Seq<Seq<char>> {
    seq![
        "top"@,
        "bottom"@,
        "left"@,
        "right"@,
        "center"@,
        "topleft"@,
        "topright"@,
        "bottomleft"@,
        "bottomright"@,
    ]
}

/// The number of frame slices.
pub const FRAME_SLICE_COUNT: usize = 9;

/// Slice suffix `i`.
pub fn frame_slice(i: usize) -> (r: &'static str)
    requires
        i < FRAME_SLICE_COUNT,
    ensures
        r@ == frame_slices()[i as int],
{
    match i {
        0 => "top",
        1 => "bottom",
        2 => "left",
        3 => "right",
        4 => "center",
        5 => "topleft",
        6 => "topright",
        7 => "bottomleft",
        _ => "bottomright",
    }
}

/// The id of element `name` of a frame: `name` itself for the empty
/// prefix, else `prefix-name`.
pub open spec fn frame_element(prefix: Seq<char>, name: Seq<char>) -> Seq<char> {
    if prefix.len() == 0 {
        name
    } else {
        prefix + "-"@ + name
    }
}

/// The id of element `name` of the frame with element prefix `prefix`.
pub fn slice_id(prefix: &str, name: &str) -> (r: String)
    ensures
        r@ == frame_element(prefix@, name@),
{
    let p = chars_of(prefix);
    let mut s = String::new();
    if p.len() == 0 {
        push_str(&mut s, name);
        assert(s@ =~= name@);
    } else {
        push_str(&mut s, prefix);
        push_str(&mut s, "-");
        push_str(&mut s, name);
        assert(s@ =~= prefix@ + "-"@ + name@);
    }
    s
}

/// Whether `id` is one of the nine slice elements of the frame with prefix
/// `prefix`.
pub open spec fn is_frame_slice(id: Seq<char>, prefix: Seq<char>) -> bool {
    exists|i: int| 0 <= i < FRAME_SLICE_COUNT && id == frame_element(prefix, #[trigger] frame_slices()[i])
}

/// `KSvg` prefix matching: a frame renders exactly its nine slice elements
/// (the base ids for an empty prefix, the `prefix-` ids otherwise); hints,
/// overlays and helpers never belong to it.
pub fn matches_prefix(id: &str, prefix: &str) -> (r: bool)
    ensures
        r == is_frame_slice(id@, prefix@),
{
    let target = chars_of(id);
    let mut i: usize = 0;
    while i < FRAME_SLICE_COUNT
        invariant
            i <= FRAME_SLICE_COUNT,
            target@ == id@,
            forall|j: int| 0 <= j < i ==> id@ != frame_element(prefix@, #[trigger] frame_slices()[j]),
        decreases FRAME_SLICE_COUNT - i,
    {
        let name = frame_slice(i);
        let candidate = slice_id(prefix, name);
        let c = chars_of(candidate.as_str());
        if eq_chars(&target, &c) {
            return true;
        }
        i += 1;
    }
    false
}

/// Whether element id `id` carries prefix `prefix`: it is `prefix` itself
/// or starts with `prefix-`.
pub open spec fn has_prefix(id: Seq<char>, prefix: Seq<char>) -> bool {
    id == prefix || starts_with(id, prefix + "-"@)
}

/// Whether element id `id` carries prefix `prefix`.
pub fn id_has_prefix(id: &str, prefix: &str) -> (r: bool)
    ensures
        r == has_prefix(id@, prefix@),
{
    let v = chars_of(id);
    let p = chars_of(prefix);
    if eq_chars(&v, &p) {
        return true;
    }
    let mut dash = String::new();
    push_str(&mut dash, prefix);
    push_str(&mut dash, "-");
    starts_with_str(&v, dash.as_str())
}

} // verus!
