//! Plasma theme discovery (`Plasma::Theme` equivalent): the theme
//! directory with its fallback to `default`, the image files of a theme,
//! and the blur-behind setting.

use vstd::prelude::*;
use crate::breeze::colorscheme::is_group_line;
use crate::paths::{first_accepted, first_hit, join_path, path_join, texts};
use crate::text::{
    chars_of, eq_str, push_str, seqs_of, slice_chars, starts_with, starts_with_str, trim, trim_chars,
    trimmed_lines, trimmed_lines_of,
};

verus! {

/// The theme every lookup falls back to.
pub const DEFAULT_THEME: &'static str = "default";

/// Where theme directories live below each data root.
pub const THEME_SUBDIR: &'static str = "plasma/desktoptheme";

/// The directory of theme `name` below each data root, in order.
pub open spec fn theme_dirs(roots: Seq<Seq<char>>, name: Seq<char>) -> Seq<Seq<char>>
    decreases roots.len(),
{
    if roots.len() == 0 {
        Seq::empty()
    } else {
        theme_dirs(roots.drop_last(), name).push(
            path_join(path_join(roots.last(), "plasma/desktoptheme"@), name),
        )
    }
}

/// The candidate theme directories: theme `name` on every root (none when
/// no name is given), then the `default` theme on every root.
pub open spec fn locate_candidates(roots: Seq<Seq<char>>, name: Seq<char>) -> Seq<Seq<char>> {
    if name.len() == 0 {
        theme_dirs(roots, "default"@)
    } else {
        theme_dirs(roots, name) + theme_dirs(roots, "default"@)
    }
}

/// How many leading candidates belong to theme `name` itself.
pub open spec fn named_candidates(roots: Seq<Seq<char>>, name: Seq<char>) -> int {
    if name.len() == 0 {
        0
    } else {
        roots.len() as int
    }
}

/// Push the directory of `name` on each root, in order.
fn push_theme_dirs(out: &mut Vec<String>, roots: &Vec<String>, name: &str)
    ensures
        texts(final(out)@) == texts(old(out)@) + theme_dirs(texts(roots@), name@),
{
    let ghost start = texts(out@);
    let mut i: usize = 0;
    while i < roots.len()
        invariant
            i <= roots@.len(),
            texts(out@) == start + theme_dirs(texts(roots@).take(i as int), name@),
        decreases roots.len() - i,
    {
        let ghost before = texts(out@);
        let base = join_path(roots[i].as_str(), THEME_SUBDIR);
        let dir = join_path(base.as_str(), name);
        out.push(dir);
        proof {
            let rs = texts(roots@);
            assert(rs.take(i + 1).drop_last() =~= rs.take(i as int));
            assert(rs.take(i + 1).last() == roots@[i as int]@);
            assert(texts(out@) =~= before.push(dir@));
        }
        i += 1;
    }
    assert(texts(roots@).take(roots@.len() as int) =~= texts(roots@));
}

/// Locate a theme directory by name, falling back to `default` (also when
/// no name is given): the first candidate of [`locate_candidates`] that
/// `is_dir` reports to be a directory, with the name of the theme it
/// belongs to.
pub fn locate_theme<F: Fn(&str) -> bool>(roots: &Vec<String>, name: &str, is_dir: F) -> (r: Option<(String, String)>)
    requires
        forall|s: &str| call_requires(is_dir, (s,)),
    ensures
        ({
            let cands = locate_candidates(texts(roots@), name@);
            match r {
                Some((theme, dir)) => exists|i: usize|
                    first_hit(is_dir, cands, Some(i)) && dir@ == cands[i as int] && theme@ == if i
                        < named_candidates(texts(roots@), name@) {
                        name@
                    } else {
                        "default"@
                    },
                None => first_hit(is_dir, cands, None),
            }
        }),
        name@.len() == 0 ==> (r matches Some((theme, _)) ==> theme@ == "default"@),
{
    let mut cands: Vec<String> = Vec::new();
    proof {
        assert(texts(cands@) =~= Seq::<Seq<char>>::empty());
    }
    let named = chars_of(name).len() > 0;
    if named {
        push_theme_dirs(&mut cands, roots, name);
    }
    push_theme_dirs(&mut cands, roots, DEFAULT_THEME);
    proof {
        lemma_theme_dirs_len(texts(roots@), name@);
        assert(texts(cands@) =~= locate_candidates(texts(roots@), name@));
    }
    match first_accepted(&cands, is_dir) {
        Some(i) => {
            let theme = if named && i < roots.len() {
                name.to_owned()
            } else {
                DEFAULT_THEME.to_owned()
            };
            let dir = cands.remove(i);
            Some((theme, dir))
        },
        None => None,
    }
}

/// One directory per root.
proof fn lemma_theme_dirs_len(roots: Seq<Seq<char>>, name: Seq<char>)
    ensures
        theme_dirs(roots, name).len() == roots.len(),
    decreases roots.len(),
{
    if roots.len() > 0 {
        lemma_theme_dirs_len(roots.drop_last(), name);
    }
}

/// The image files of `name` in theme `theme` below each root: `.svgz`
/// then `.svg`, root after root.
pub open spec fn image_files(roots: Seq<Seq<char>>, theme: Seq<char>, name: Seq<char>) -> Seq<Seq<char>>
    decreases roots.len(),
{
    if roots.len() == 0 {
        Seq::empty()
    } else {
        let base = path_join(path_join(roots.last(), "plasma/desktoptheme"@), theme);
        image_files(roots.drop_last(), theme, name).push(path_join(base, name + ".svgz"@)).push(
            path_join(base, name + ".svg"@),
        )
    }
}

/// Whether `../` starts at position `i` of `name`.
pub open spec fn parent_ref_at(name: Seq<char>, i: int) -> bool {
    0 <= i && i + 3 <= name.len() && name[i] == '.' && name[i + 1] == '.' && name[i + 2] == '/'
}

/// Whether a path climbs out of its directory (holds `../`).
pub open spec fn climbs(name: Seq<char>) -> bool {
    exists|i: int| #[trigger] parent_ref_at(name, i)
}

/// Push the image files of `name` in theme `theme` on each root.
fn push_image_files(out: &mut Vec<String>, roots: &Vec<String>, theme: &str, name: &str)
    ensures
        texts(final(out)@) == texts(old(out)@) + image_files(texts(roots@), theme@, name@),
{
    let ghost start = texts(out@);
    let mut svgz = String::new();
    push_str(&mut svgz, name);
    push_str(&mut svgz, ".svgz");
    let mut svg = String::new();
    push_str(&mut svg, name);
    push_str(&mut svg, ".svg");
    assert(svgz@ =~= name@ + ".svgz"@);
    assert(svg@ =~= name@ + ".svg"@);
    let mut i: usize = 0;
    while i < roots.len()
        invariant
            i <= roots@.len(),
            svgz@ == name@ + ".svgz"@,
            svg@ == name@ + ".svg"@,
            texts(out@) == start + image_files(texts(roots@).take(i as int), theme@, name@),
        decreases roots.len() - i,
    {
        let ghost before = texts(out@);
        let sub = join_path(roots[i].as_str(), THEME_SUBDIR);
        let base = join_path(sub.as_str(), theme);
        let a = join_path(base.as_str(), svgz.as_str());
        let b = join_path(base.as_str(), svg.as_str());
        out.push(a);
        out.push(b);
        proof {
            let rs = texts(roots@);
            assert(rs.take(i + 1).drop_last() =~= rs.take(i as int));
            assert(rs.take(i + 1).last() == roots@[i as int]@);
            assert(texts(out@) =~= before.push(a@).push(b@));
        }
        i += 1;
    }
    assert(texts(roots@).take(roots@.len() as int) =~= texts(roots@));
}

/// Resolve an image path like `dialogs/background` of theme `theme` to a
/// file: `<theme>/<name>.svgz` or `.svg` on each root, then the same in the
/// `default` theme; nothing for an empty name, an absolute one (beginning
/// with `/`, which would leave the theme directories) or one holding `../`.
pub fn image_path<F: Fn(&str) -> bool>(roots: &Vec<String>, theme: &str, name: &str, is_file: F) -> (r: Option<String>)
    requires
        forall|s: &str| call_requires(is_file, (s,)),
    ensures
        ({
            let cands = image_files(texts(roots@), theme@, name@) + image_files(
                texts(roots@),
                "default"@,
                name@,
            );
            if name@.len() == 0 || name@[0] == '/' || climbs(name@) {
                r is None
            } else {
                match r {
                    Some(p) => exists|i: usize| first_hit(is_file, cands, Some(i)) && p@ == cands[i as int],
                    None => first_hit(is_file, cands, None),
                }
            }
        }),
{
    let v = chars_of(name);
    if v.len() == 0 || v[0] == '/' {
        return None;
    }
    let mut k: usize = 0;
    while k < v.len() && v.len() - k >= 3
        invariant
            v@ == name@,
            forall|j: int| j < k ==> !#[trigger] parent_ref_at(v@, j),
        decreases v.len() - k,
    {
        if v[k] == '.' && v[k + 1] == '.' && v[k + 2] == '/' {
            assert(parent_ref_at(name@, k as int));
            return None;
        }
        k += 1;
    }
    let mut cands: Vec<String> = Vec::new();
    proof {
        assert(texts(cands@) =~= Seq::<Seq<char>>::empty());
    }
    push_image_files(&mut cands, roots, theme, name);
    push_image_files(&mut cands, roots, DEFAULT_THEME, name);
    match first_accepted(&cands, is_file) {
        Some(i) => Some(cands.remove(i)),
        None => None,
    }
}

/// Whether a value reads `true`, ignoring ASCII case.
pub open spec fn is_true_word(v: Seq<char>) -> bool {
    &&& v.len() == 4
    &&& (v[0] == 't' || v[0] == 'T')
    &&& (v[1] == 'r' || v[1] == 'R')
    &&& (v[2] == 'u' || v[2] == 'U')
    &&& (v[3] == 'e' || v[3] == 'E')
}

/// The `enabled=` setting of `[BlurBehindEffect]` among trimmed lines,
/// reading from line `i` with `in_group` telling whether that group is open.
pub open spec fn blur_from(ls: Seq<Seq<char>>, i: int, in_group: bool) -> Option<bool>
    decreases ls.len() - i,
{
    if i < 0 || i >= ls.len() {
        None
    } else {
        let line = ls[i];
        if is_group_line(line) {
            blur_from(ls, i + 1, line == "[BlurBehindEffect]"@)
        } else if in_group && starts_with(line, "enabled="@) {
            Some(is_true_word(trim(line.skip(8))))
        } else {
            blur_from(ls, i + 1, in_group)
        }
    }
}

/// Whether blur is enabled: the setting of `plasmarc`, else that of
/// `metadata.desktop` (each when readable), else true.
pub open spec fn blur_enabled(plasmarc: Option<Seq<char>>, metadata: Option<Seq<char>>) -> bool {
    let first = match plasmarc {
        Some(t) => blur_from(trimmed_lines(t), 0, false),
        None => None,
    };
    match first {
        Some(b) => b,
        None => match metadata {
            Some(t) => match blur_from(trimmed_lines(t), 0, false) {
                Some(b) => b,
                None => true,
            },
            None => true,
        },
    }
}

/// The `[BlurBehindEffect] enabled` setting of one file's text.
fn blur_setting(text: &str) -> (r: Option<bool>)
    ensures
        r == blur_from(trimmed_lines(text@), 0, false),
{
    let lines = trimmed_lines_of(text);
    let ghost ls = trimmed_lines(text@);
    let mut in_group = false;
    let mut i: usize = 0;
    while i < lines.len()
        invariant
            seqs_of(lines@) == ls,
            ls == trimmed_lines(text@),
            i <= lines@.len(),
            blur_from(ls, 0, false) == blur_from(ls, i as int, in_group),
        decreases lines.len() - i,
    {
        let line = &lines[i];
        assert(ls[i as int] == line@);
        let n = line.len();
        if n > 0 && line[0] == '[' && line[n - 1] == ']' {
            in_group = eq_str(line, "[BlurBehindEffect]");
        } else if in_group && starts_with_str(line, "enabled=") {
            proof {
                reveal_strlit("enabled=");
            }
            let rest = slice_chars(line, 8, n);
            assert(rest@ =~= line@.skip(8));
            let v = trim_chars(&rest);
            let t = v.len() == 4 && (v[0] == 't' || v[0] == 'T') && (v[1] == 'r' || v[1] == 'R') && (
            v[2] == 'u' || v[2] == 'U') && (v[3] == 'e' || v[3] == 'E');
            return Some(t);
        }
        i += 1;
    }
    None
}

/// Whether blur-behind is enabled (`[BlurBehindEffect] enabled`), from the
/// theme's `plasmarc` and `metadata.desktop` texts when readable; true when
/// neither sets it.
pub fn read_blur_behind(plasmarc: Option<&str>, metadata: Option<&str>) -> (r: bool)
    ensures
        r == blur_enabled(
            match plasmarc {
                Some(t) => Some(t@),
                None => None,
            },
            match metadata {
                Some(t) => Some(t@),
                None => None,
            },
        ),
{
    let first = match plasmarc {
        Some(t) => blur_setting(t),
        None => None,
    };
    match first {
        Some(b) => b,
        None => match metadata {
            Some(t) => match blur_setting(t) {
                Some(b) => b,
                None => true,
            },
            None => true,
        },
    }
}

} // verus!
