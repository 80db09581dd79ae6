//! Resolving the active Plasma theme: the `currentTheme` key of `plasmarc`,
//! the theme directory along the search paths and the blur setting.

use vstd::prelude::*;
use crate::text::{chars_of, eq_chars, split_once, split_once_chars, strip_end_chars, strip_end_matches,
    strip_matches, strip_matches_chars, strip_start_chars, strip_start_matches, string_of, trim, trim_chars,
    trimmed_lines, trimmed_lines_of, seqs_of};
use crate::paths::{answered, first_accepted, first_hit, join_path, path_join, texts};

verus! {

/// A resolved Plasma theme.
#[derive(Debug, Clone)]
pub struct Theme {
    /// Theme name.
    pub name: String,
    /// Theme directory.
    pub dir: String,
    /// Path of the theme's `colors` file, if any.
    pub colors_file: Option<String>,
    /// Whether the theme requests blur behind its panels.
    pub blur_behind: bool,
}

/// Whether a trimmed line opens a section.
pub open spec fn is_header(line: Seq<char>) -> bool {
    line.len() > 0 && line[0] == '[' && line.last() == ']'
}

/// The section name a header line opens: brackets stripped, then trimmed.
pub open spec fn header_name(line: Seq<char>) -> Seq<char> {
    trim(strip_end_matches(strip_start_matches(line, '['), ']'))
}

/// The value of `key` in `section`, scanning the trimmed lines from `i`
/// with `in_section` telling whether that section is open: the first
/// nonempty value (quotes stripped) wins.
pub open spec fn key_from(ls: Seq<Seq<char>>, i: int, in_section: bool, section: Seq<char>, key: Seq<char>) -> Option<Seq<char>>
    decreases ls.len() - i,
{
    if i < 0 || i >= ls.len() {
        None
    } else if is_header(ls[i]) {
        key_from(ls, i + 1, header_name(ls[i]) == section, section, key)
    } else {
        match split_once(ls[i], '=') {
            Some((k, v)) => if in_section && trim(k) == key && strip_matches(trim(v), '"').len() > 0 {
                Some(strip_matches(trim(v), '"'))
            } else {
                key_from(ls, i + 1, in_section, section, key)
            },
            None => key_from(ls, i + 1, in_section, section, key),
        }
    }
}

/// `key=value` from a `KConfig` text within `section`.
pub open spec fn kconfig_value(text: Seq<char>, section: Seq<char>, key: Seq<char>) -> Option<Seq<char>> {
    key_from(trimmed_lines(text), 0, false, section, key)
}

/// Read a `key=value` from a `KConfig` file within a section.
pub fn read_key(text: &str, section: &str, key: &str) -> (r: Option<String>)
    ensures
        match r {
            Some(v) => kconfig_value(text@, section@, key@) == Some(v@),
            None => kconfig_value(text@, section@, key@) is None,
        },
{
    let lines = trimmed_lines_of(text);
    let ghost ls = trimmed_lines(text@);
    let sec = chars_of(section);
    let want = chars_of(key);
    assert(lines@.len() == ls.len());
    let mut in_section = false;
    let mut i: usize = 0;
    while i < lines.len()
        invariant
            i <= lines@.len(),
            seqs_of(lines@) == ls,
            lines@.len() == ls.len(),
            ls == trimmed_lines(text@),
            sec@ == section@,
            want@ == key@,
            kconfig_value(text@, section@, key@) == key_from(ls, i as int, in_section, section@, key@),
        decreases lines.len() - i,
    {
        let line = &lines[i];
        assert(seqs_of(lines@)[i as int] == line@);
        if line.len() > 0 && line[0] == '[' && line[line.len() - 1] == ']' {
            let a = strip_start_chars(line, '[');
            let b = strip_end_chars(&a, ']');
            let name = trim_chars(&b);
            in_section = eq_chars(&name, &sec);
            i += 1;
            continue;
        }
        if in_section {
            match split_once_chars(line, '=') {
                Some((k, v)) => {
                    let kk = trim_chars(&k);
                    if eq_chars(&kk, &want) {
                        let tv = trim_chars(&v);
                        let value = strip_matches_chars(&tv, '"');
                        if value.len() > 0 {
                            return Some(string_of(&value));
                        }
                    }
                },
                None => {},
            }
        }
        i += 1;
    }
    None
}

/// The active theme name for a `plasmarc` text: its `[Theme] currentTheme`,
/// or `default`.
pub open spec fn theme_name_for(plasmarc: Option<Seq<char>>) -> Seq<char> {
    match plasmarc {
        Some(t) => match kconfig_value(t, "Theme"@, "currentTheme"@) {
            Some(n) => n,
            None => "default"@,
        },
        None => "default"@,
    }
}

/// Determine the active Plasma theme name from the `plasmarc` text (when
/// the file could be read), mirroring `Plasma::Theme`'s default resolution:
/// the `currentTheme` key, falling back to `default`.
pub fn active_theme_name(plasmarc: Option<&str>) -> (r: String)
    ensures
        r@ == theme_name_for(match plasmarc {
            Some(t) => Some(t@),
            None => None,
        }),
{
    match plasmarc {
        Some(text) => match read_key(text, "Theme", "currentTheme") {
            Some(name) => name,
            None => "default".to_owned(),
        },
        None => "default".to_owned(),
    }
}

/// Whether a theme requests blur: `[Theme] blurBehind` of its
/// `metadata.desktop` (`true` or `1`), or true when unset or unreadable.
pub open spec fn blur_for(desktop: Option<Seq<char>>) -> bool {
    match desktop {
        Some(t) => match kconfig_value(t, "Theme"@, "blurBehind"@) {
            Some(v) => v == "true"@ || v == "1"@,
            None => true,
        },
        None => true,
    }
}

/// Whether the theme requests blur behind its panels, given the text of
/// its `metadata.desktop` when it could be read (`metadata.json` carries no
/// blur flag). Defaults to true.
pub fn theme_blur_behind(desktop: Option<&str>) -> (r: bool)
    ensures
        r == blur_for(match desktop {
            Some(t) => Some(t@),
            None => None,
        }),
{
    match desktop {
        Some(text) => match read_key(text, "Theme", "blurBehind") {
            Some(value) => {
                let v = chars_of(value.as_str());
                crate::text::eq_str(&v, "true") || crate::text::eq_str(&v, "1")
            },
            None => true,
        },
        None => true,
    }
}

/// The active theme is the one `plasmarc` names under `[Theme]
/// currentTheme`; without that setting, or without a readable `plasmarc`,
/// it is `default`.
pub proof fn lemma_active_theme(text: Seq<char>)
    ensures
        kconfig_value(text, "Theme"@, "currentTheme"@) matches Some(n) ==> theme_name_for(Some(text)) == n,
        kconfig_value(text, "Theme"@, "currentTheme"@) is None ==> theme_name_for(Some(text)) == "default"@,
        theme_name_for(None) == "default"@,
{
}

/// What a theme's `[Theme] blurBehind` setting means for
/// [`theme_blur_behind`]: `true` or `1` asks for blur, `false`, `0` or any
/// other value opts out, and no setting (or no readable file) keeps the
/// default, blur on.
pub proof fn lemma_blur_setting(text: Seq<char>)
    ensures
        kconfig_value(text, "Theme"@, "blurBehind"@) == Some("true"@) ==> blur_for(Some(text)),
        kconfig_value(text, "Theme"@, "blurBehind"@) == Some("1"@) ==> blur_for(Some(text)),
        kconfig_value(text, "Theme"@, "blurBehind"@) == Some("false"@) ==> !blur_for(Some(text)),
        kconfig_value(text, "Theme"@, "blurBehind"@) == Some("0"@) ==> !blur_for(Some(text)),
        kconfig_value(text, "Theme"@, "blurBehind"@) is None ==> blur_for(Some(text)),
        blur_for(None),
{
    reveal_strlit("true");
    reveal_strlit("1");
    reveal_strlit("false");
    reveal_strlit("0");
    assert("false"@.len() != "true"@.len());
    assert("0"@[0] != "1"@[0]);
}

/// The candidate directories of theme `name` along the search paths.
pub open spec fn theme_candidates(paths: Seq<Seq<char>>, name: Seq<char>) -> Seq<Seq<char>> {
    paths.map_values(|p: Seq<char>| path_join(p, name))
}

/// Find the directory of a theme by name: the first of the search paths
/// (in priority order) joined with `name` that `is_dir` reports to be a
/// directory.
pub fn find_theme_dir<F: Fn(&str) -> bool>(search_paths: &Vec<String>, name: &str, is_dir: F) -> (r: Option<String>)
    requires
        forall|s: &str| call_requires(is_dir, (s,)),
    ensures
        match r {
            Some(d) => exists|i: int|
                0 <= i < search_paths@.len() && d@ == path_join(#[trigger] search_paths@[i]@, name@)
                    && answered(is_dir, d@, true) && forall|j: int|
                    0 <= j < i ==> answered(is_dir, path_join(#[trigger] search_paths@[j]@, name@), false),
            None => forall|i: int|
                0 <= i < search_paths@.len() ==> answered(is_dir, path_join(#[trigger] search_paths@[i]@, name@), false),
        },
{
    let mut i: usize = 0;
    while i < search_paths.len()
        invariant
            i <= search_paths@.len(),
            forall|s: &str| call_requires(is_dir, (s,)),
            forall|j: int|
                0 <= j < i ==> answered(is_dir, path_join(#[trigger] search_paths@[j]@, name@), false),
        decreases search_paths.len() - i,
    {
        let dir = join_path(search_paths[i].as_str(), name);
        let d: &str = dir.as_str();
        let found = is_dir(d);
        if found {
            assert(answered(is_dir, dir@, true));
            return Some(dir);
        }
        assert(answered(is_dir, path_join(search_paths@[i as int]@, name@), false));
        i += 1;
    }
    None
}

/// The candidate files of color scheme `name`: `<dir>/<name>.colors` for
/// each search directory, in order.
pub open spec fn scheme_candidates(dirs: Seq<Seq<char>>, name: Seq<char>) -> Seq<Seq<char>> {
    dirs.map_values(|d: Seq<char>| path_join(d, name + ".colors"@))
}

/// Search the color-scheme directories (in priority order) for
/// `<name>.colors`: the first candidate that `is_file` reports to exist.
pub fn find_color_scheme_file<F: Fn(&str) -> bool>(search_dirs: &Vec<String>, name: &str, is_file: F) -> (r: Option<String>)
    requires
        forall|s: &str| call_requires(is_file, (s,)),
    ensures
        match r {
            Some(p) => exists|i: usize|
                first_hit(is_file, scheme_candidates(texts(search_dirs@), name@), Some(i))
                    && p@ == scheme_candidates(texts(search_dirs@), name@)[i as int],
            None => first_hit(is_file, scheme_candidates(texts(search_dirs@), name@), None),
        },
{
    let mut file = String::new();
    crate::text::push_str(&mut file, name);
    crate::text::push_str(&mut file, ".colors");
    assert(file@ =~= name@ + ".colors"@);
    let mut cands: Vec<String> = Vec::new();
    let mut i: usize = 0;
    while i < search_dirs.len()
        invariant
            i <= search_dirs@.len(),
            file@ == name@ + ".colors"@,
            texts(cands@) =~= scheme_candidates(texts(search_dirs@).take(i as int), name@),
        decreases search_dirs.len() - i,
    {
        let c = join_path(search_dirs[i].as_str(), file.as_str());
        let ghost before = texts(cands@);
        cands.push(c);
        proof {
            let ds = texts(search_dirs@);
            assert(ds.take(i + 1) =~= ds.take(i as int).push(search_dirs@[i as int]@));
            assert(texts(cands@) =~= before.push(c@));
        }
        i += 1;
    }
    assert(texts(search_dirs@).take(search_dirs@.len() as int) =~= texts(search_dirs@));
    match first_accepted(&cands, is_file) {
        Some(k) => Some(cands.remove(k)),
        None => None,
    }
}

} // verus!
