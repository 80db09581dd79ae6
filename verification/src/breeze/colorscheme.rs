//! KColorScheme-equivalent color resolution: the role-to-key mapping and
//! the cascade (the theme's `colors` file, then `kdeglobals`, then the
//! built-in Breeze Light defaults) that KSvg uses for SVG color
//! substitution, and the INI reader that feeds it.

use vstd::prelude::*;
use crate::plasma::colors::{css_name_of, css_signature, lemma_css_names_distinct, lemma_role_signature, role_prefix, role_suffix, ColorKey, StyleSheetColor};
use crate::plasma::colors::ColorGroup as PColorGroup;
use crate::breeze::ini::{child_of, fresh, get_path, path_segs, put_sub, set_path, sub_of, RawConfig, Tree};
use crate::text::{
    chars_of, ends_with, eq_str, find_char, hex2, parse_u8, parse_unsigned_chars, push_char,
    push_hex2, push_str, seqs_of, slice_chars, split_chars, split_on, starts_with, string_of, trim,
    trim_chars, trimmed_lines, trimmed_lines_of,
};

verus! {

/// An opaque 8-bit RGB color.
pub type Rgb = (u8, u8, u8);

/// One full color set (one `[Colors:*]` group).
#[derive(Debug, Clone, Copy, PartialEq, Eq)]
pub struct ColorGroup {
    /// `ForegroundNormal`.
    pub fg_normal: Rgb,
    /// `ForegroundInactive`.
    pub fg_inactive: Rgb,
    /// `ForegroundActive`.
    pub fg_active: Rgb,
    /// `ForegroundLink`.
    pub fg_link: Rgb,
    /// `ForegroundVisited`.
    pub fg_visited: Rgb,
    /// `ForegroundNegative`.
    pub fg_negative: Rgb,
    /// `ForegroundNeutral`.
    pub fg_neutral: Rgb,
    /// `ForegroundPositive`.
    pub fg_positive: Rgb,
    /// `BackgroundNormal`.
    pub bg_normal: Rgb,
    /// `BackgroundAlternate`.
    pub bg_alternate: Rgb,
    /// `DecorationFocus`.
    pub deco_focus: Rgb,
    /// `DecorationHover`.
    pub deco_hover: Rgb,
}

/// The color that `r,g,b` spells: the text split at commas, the first three
/// parts trimmed and read as bytes (further parts are ignored).
pub open spec fn triplet(v: Seq<char>) -> Option<Rgb> {
    let parts = split_on(v, ',');
    if parts.len() >= 3 {
        match (parse_u8(trim(parts[0])), parse_u8(trim(parts[1])), parse_u8(trim(parts[2]))) {
            (Some(r), Some(g), Some(b)) => Some((r, g, b)),
            _ => None,
        }
    } else {
        None
    }
}

/// The model of an optional node.
pub open spec fn opt_tree(node: Option<&RawConfig>) -> Option<Tree> {
    match node {
        Some(n) => Some(n@),
        None => None,
    }
}

/// Parse the `r,g,b` value of a node, if there is a node.
pub fn parse_triplet(node: Option<&RawConfig>) -> (r: Option<Rgb>)
    ensures
        r == match opt_tree(node) {
            Some(t) => triplet(t.value),
            None => None,
        },
{
    let n = match node {
        Some(n) => n,
        None => return None,
    };
    let v = chars_of(n.value());
    let parts = split_chars(&v, ',');
    if parts.len() < 3 {
        return None;
    }
    assert(seqs_of(parts@)[0] == parts@[0]@);
    assert(seqs_of(parts@)[1] == parts@[1]@);
    assert(seqs_of(parts@)[2] == parts@[2]@);
    let p0 = trim_chars(&parts[0]);
    let p1 = trim_chars(&parts[1]);
    let p2 = trim_chars(&parts[2]);
    match (
        parse_unsigned_chars(&p0, 10, 255),
        parse_unsigned_chars(&p1, 10, 255),
        parse_unsigned_chars(&p2, 10, 255),
    ) {
        (Some(r), Some(g), Some(b)) => Some((r as u8, g as u8, b as u8)),
        _ => None,
    }
}

/// The seven color groups of a scheme.
pub open spec fn is_group_name(g: Seq<char>) -> bool {
    ||| g == "Colors:Window"@
    ||| g == "Colors:Selection"@
    ||| g == "Colors:Button"@
    ||| g == "Colors:View"@
    ||| g == "Colors:Complementary"@
    ||| g == "Colors:Header"@
    ||| g == "Colors:Tooltip"@
}

/// The Breeze Light `Colors:Window` defaults of `kcolorscheme.cpp`.
pub open spec fn window_defaults() -> ColorGroup {
    ColorGroup {
        fg_normal: (35, 38, 41),
        fg_inactive: (112, 125, 138),
        fg_active: (61, 174, 233),
        fg_link: (41, 128, 185),
        fg_visited: (155, 89, 182),
        fg_negative: (218, 68, 83),
        fg_neutral: (246, 116, 0),
        fg_positive: (39, 174, 96),
        bg_normal: (239, 240, 241),
        bg_alternate: (227, 229, 231),
        deco_focus: (61, 174, 233),
        deco_hover: (147, 206, 233),
    }
}

/// The Breeze Light `Colors:Selection` defaults.
pub open spec fn selection_defaults() -> ColorGroup {
    ColorGroup {
        fg_normal: (255, 255, 255),
        fg_inactive: (112, 125, 138),
        fg_active: (255, 255, 255),
        fg_link: (253, 188, 75),
        fg_visited: (155, 89, 182),
        fg_negative: (176, 55, 69),
        fg_neutral: (198, 92, 0),
        fg_positive: (23, 104, 57),
        bg_normal: (61, 174, 233),
        bg_alternate: (163, 212, 250),
        deco_focus: (61, 174, 233),
        deco_hover: (147, 206, 233),
    }
}

/// The Breeze Light `Colors:Button` defaults.
pub open spec fn button_defaults() -> ColorGroup {
    ColorGroup {
        fg_normal: (35, 38, 41),
        fg_inactive: (112, 125, 138),
        fg_active: (61, 174, 233),
        fg_link: (41, 128, 185),
        fg_visited: (155, 89, 182),
        fg_negative: (218, 68, 83),
        fg_neutral: (246, 116, 0),
        fg_positive: (39, 174, 96),
        bg_normal: (252, 252, 252),
        bg_alternate: (163, 212, 250),
        deco_focus: (61, 174, 233),
        deco_hover: (147, 206, 233),
    }
}

/// The Breeze Light `Colors:View` defaults.
pub open spec fn view_defaults() -> ColorGroup {
    ColorGroup {
        fg_normal: (35, 38, 41),
        fg_inactive: (112, 125, 138),
        fg_active: (61, 174, 233),
        fg_link: (41, 128, 185),
        fg_visited: (155, 89, 182),
        fg_negative: (218, 68, 83),
        fg_neutral: (246, 116, 0),
        fg_positive: (39, 174, 96),
        bg_normal: (255, 255, 255),
        bg_alternate: (247, 247, 247),
        deco_focus: (61, 174, 233),
        deco_hover: (147, 206, 233),
    }
}

/// The Breeze Light `Colors:Complementary` defaults.
pub open spec fn complementary_defaults() -> ColorGroup {
    ColorGroup {
        fg_normal: (252, 252, 252),
        fg_inactive: (161, 169, 177),
        fg_active: (61, 174, 233),
        fg_link: (29, 153, 243),
        fg_visited: (155, 89, 182),
        fg_negative: (218, 68, 83),
        fg_neutral: (246, 116, 0),
        fg_positive: (39, 174, 96),
        bg_normal: (42, 46, 50),
        bg_alternate: (27, 30, 32),
        deco_focus: (61, 174, 233),
        deco_hover: (147, 206, 233),
    }
}

/// The Breeze Light `Colors:Header` defaults.
pub open spec fn header_defaults() -> ColorGroup {
    ColorGroup {
        fg_normal: (35, 38, 41),
        fg_inactive: (112, 125, 138),
        fg_active: (61, 174, 233),
        fg_link: (41, 128, 185),
        fg_visited: (155, 89, 182),
        fg_negative: (218, 68, 83),
        fg_neutral: (246, 116, 0),
        fg_positive: (39, 174, 96),
        bg_normal: (222, 224, 226),
        bg_alternate: (239, 240, 241),
        deco_focus: (61, 174, 233),
        deco_hover: (147, 206, 233),
    }
}

/// The Breeze Light `Colors:Tooltip` defaults.
pub open spec fn tooltip_defaults() -> ColorGroup {
    ColorGroup {
        fg_normal: (35, 38, 41),
        fg_inactive: (112, 125, 138),
        fg_active: (61, 174, 233),
        fg_link: (41, 128, 185),
        fg_visited: (155, 89, 182),
        fg_negative: (218, 68, 83),
        fg_neutral: (246, 116, 0),
        fg_positive: (39, 174, 96),
        bg_normal: (247, 247, 247),
        bg_alternate: (239, 240, 241),
        deco_focus: (61, 174, 233),
        deco_hover: (147, 206, 233),
    }
}

/// The built-in defaults of color group `g`.
pub open spec fn default_group(g: Seq<char>) -> ColorGroup {
    if g == "Colors:Window"@ {
        window_defaults()
    } else if g == "Colors:Selection"@ {
        selection_defaults()
    } else if g == "Colors:Button"@ {
        button_defaults()
    } else if g == "Colors:View"@ {
        view_defaults()
    } else if g == "Colors:Complementary"@ {
        complementary_defaults()
    } else if g == "Colors:Header"@ {
        header_defaults()
    } else {
        tooltip_defaults()
    }
}

/// The hardcoded Breeze Light defaults of one of the seven color groups.
pub fn default_for(group: &str) -> (r: ColorGroup)
    requires
        is_group_name(group@),
    ensures
        r == default_group(group@),
{
    let g = chars_of(group);
    if eq_str(&g, "Colors:Window") {
        ColorGroup {
            fg_normal: (35, 38, 41),
            fg_inactive: (112, 125, 138),
            fg_active: (61, 174, 233),
            fg_link: (41, 128, 185),
            fg_visited: (155, 89, 182),
            fg_negative: (218, 68, 83),
            fg_neutral: (246, 116, 0),
            fg_positive: (39, 174, 96),
            bg_normal: (239, 240, 241),
            bg_alternate: (227, 229, 231),
            deco_focus: (61, 174, 233),
            deco_hover: (147, 206, 233),
        }
    } else if eq_str(&g, "Colors:Selection") {
        ColorGroup {
            fg_normal: (255, 255, 255),
            fg_inactive: (112, 125, 138),
            fg_active: (255, 255, 255),
            fg_link: (253, 188, 75),
            fg_visited: (155, 89, 182),
            fg_negative: (176, 55, 69),
            fg_neutral: (198, 92, 0),
            fg_positive: (23, 104, 57),
            bg_normal: (61, 174, 233),
            bg_alternate: (163, 212, 250),
            deco_focus: (61, 174, 233),
            deco_hover: (147, 206, 233),
        }
    } else if eq_str(&g, "Colors:Button") {
        ColorGroup {
            fg_normal: (35, 38, 41),
            fg_inactive: (112, 125, 138),
            fg_active: (61, 174, 233),
            fg_link: (41, 128, 185),
            fg_visited: (155, 89, 182),
            fg_negative: (218, 68, 83),
            fg_neutral: (246, 116, 0),
            fg_positive: (39, 174, 96),
            bg_normal: (252, 252, 252),
            bg_alternate: (163, 212, 250),
            deco_focus: (61, 174, 233),
            deco_hover: (147, 206, 233),
        }
    } else if eq_str(&g, "Colors:View") {
        ColorGroup {
            fg_normal: (35, 38, 41),
            fg_inactive: (112, 125, 138),
            fg_active: (61, 174, 233),
            fg_link: (41, 128, 185),
            fg_visited: (155, 89, 182),
            fg_negative: (218, 68, 83),
            fg_neutral: (246, 116, 0),
            fg_positive: (39, 174, 96),
            bg_normal: (255, 255, 255),
            bg_alternate: (247, 247, 247),
            deco_focus: (61, 174, 233),
            deco_hover: (147, 206, 233),
        }
    } else if eq_str(&g, "Colors:Complementary") {
        ColorGroup {
            fg_normal: (252, 252, 252),
            fg_inactive: (161, 169, 177),
            fg_active: (61, 174, 233),
            fg_link: (29, 153, 243),
            fg_visited: (155, 89, 182),
            fg_negative: (218, 68, 83),
            fg_neutral: (246, 116, 0),
            fg_positive: (39, 174, 96),
            bg_normal: (42, 46, 50),
            bg_alternate: (27, 30, 32),
            deco_focus: (61, 174, 233),
            deco_hover: (147, 206, 233),
        }
    } else if eq_str(&g, "Colors:Header") {
        ColorGroup {
            fg_normal: (35, 38, 41),
            fg_inactive: (112, 125, 138),
            fg_active: (61, 174, 233),
            fg_link: (41, 128, 185),
            fg_visited: (155, 89, 182),
            fg_negative: (218, 68, 83),
            fg_neutral: (246, 116, 0),
            fg_positive: (39, 174, 96),
            bg_normal: (222, 224, 226),
            bg_alternate: (239, 240, 241),
            deco_focus: (61, 174, 233),
            deco_hover: (147, 206, 233),
        }
    } else {
        ColorGroup {
            fg_normal: (35, 38, 41),
            fg_inactive: (112, 125, 138),
            fg_active: (61, 174, 233),
            fg_link: (41, 128, 185),
            fg_visited: (155, 89, 182),
            fg_negative: (218, 68, 83),
            fg_neutral: (246, 116, 0),
            fg_positive: (39, 174, 96),
            bg_normal: (247, 247, 247),
            bg_alternate: (239, 240, 241),
            deco_focus: (61, 174, 233),
            deco_hover: (147, 206, 233),
        }
    }
}

/// The section at `group` of an optional configuration.
pub open spec fn section_of(cfg: Option<Tree>, group: Seq<char>) -> Option<Tree> {
    match cfg {
        Some(t) => get_path(t, path_segs(group)),
        None => None,
    }
}

/// The color held by `key` directly under an optional section.
pub open spec fn key_triplet(sec: Option<Tree>, key: Seq<char>) -> Option<Rgb> {
    match sec {
        Some(s) => match child_of(s, key) {
            Some(c) => triplet(c.value),
            None => None,
        },
        None => None,
    }
}

/// One role of the cascade: the theme's value, else the global one, else
/// the default.
pub open spec fn pick(ts: Option<Tree>, gs: Option<Tree>, key: Seq<char>, d: Rgb) -> Rgb {
    match key_triplet(ts, key) {
        Some(v) => v,
        None => match key_triplet(gs, key) {
            Some(v) => v,
            None => d,
        },
    }
}

/// Color group `group` resolved through the theme → kdeglobals → defaults
/// cascade.
pub open spec fn resolved_group(theme: Option<Tree>, globals: Option<Tree>, group: Seq<char>) -> ColorGroup {
    let d = default_group(group);
    let ts = section_of(theme, group);
    let gs = section_of(globals, group);
    ColorGroup {
        fg_normal: pick(ts, gs, "ForegroundNormal"@, d.fg_normal),
        fg_inactive: pick(ts, gs, "ForegroundInactive"@, d.fg_inactive),
        fg_active: pick(ts, gs, "ForegroundActive"@, d.fg_active),
        fg_link: pick(ts, gs, "ForegroundLink"@, d.fg_link),
        fg_visited: pick(ts, gs, "ForegroundVisited"@, d.fg_visited),
        fg_negative: pick(ts, gs, "ForegroundNegative"@, d.fg_negative),
        fg_neutral: pick(ts, gs, "ForegroundNeutral"@, d.fg_neutral),
        fg_positive: pick(ts, gs, "ForegroundPositive"@, d.fg_positive),
        bg_normal: pick(ts, gs, "BackgroundNormal"@, d.bg_normal),
        bg_alternate: pick(ts, gs, "BackgroundAlternate"@, d.bg_alternate),
        deco_focus: pick(ts, gs, "DecorationFocus"@, d.deco_focus),
        deco_hover: pick(ts, gs, "DecorationHover"@, d.deco_hover),
    }
}

/// The field of a color group that holds the color of `key` (each field is
/// named after its key).
pub open spec fn group_field(g: ColorGroup, key: Seq<char>) -> Option<Rgb> {
    if key == "ForegroundNormal"@ {
        Some(g.fg_normal)
    } else if key == "ForegroundInactive"@ {
        Some(g.fg_inactive)
    } else if key == "ForegroundActive"@ {
        Some(g.fg_active)
    } else if key == "ForegroundLink"@ {
        Some(g.fg_link)
    } else if key == "ForegroundVisited"@ {
        Some(g.fg_visited)
    } else if key == "ForegroundNegative"@ {
        Some(g.fg_negative)
    } else if key == "ForegroundNeutral"@ {
        Some(g.fg_neutral)
    } else if key == "ForegroundPositive"@ {
        Some(g.fg_positive)
    } else if key == "BackgroundNormal"@ {
        Some(g.bg_normal)
    } else if key == "BackgroundAlternate"@ {
        Some(g.bg_alternate)
    } else if key == "DecorationFocus"@ {
        Some(g.deco_focus)
    } else if key == "DecorationHover"@ {
        Some(g.deco_hover)
    } else {
        None
    }
}

/// Each field of a resolved group is read from the key of its own name: the
/// theme's section wins when it holds a color there, then kdeglobals'
/// section, then the built-in default of that field. No other key is
/// consulted.
pub proof fn lemma_group_reads_own_key(theme: Option<Tree>, globals: Option<Tree>, group: Seq<char>, key: Seq<char>)
    requires
        group_field(default_group(group), key) is Some,
    ensures
        ({
            let r = resolved_group(theme, globals, group);
            let ts = section_of(theme, group);
            let gs = section_of(globals, group);
            &&& key_triplet(ts, key) matches Some(v) ==> group_field(r, key) == Some(v)
            &&& key_triplet(ts, key) is None ==> (key_triplet(gs, key) matches Some(v) ==> group_field(r, key) == Some(v))
            &&& (key_triplet(ts, key) is None && key_triplet(gs, key) is None) ==> group_field(r, key) == group_field(
                default_group(group),
                key,
            )
        }),
{
    reveal_strlit("ForegroundNormal");
    reveal_strlit("ForegroundInactive");
    reveal_strlit("ForegroundActive");
    reveal_strlit("ForegroundLink");
    reveal_strlit("ForegroundVisited");
    reveal_strlit("ForegroundNegative");
    reveal_strlit("ForegroundNeutral");
    reveal_strlit("ForegroundPositive");
    reveal_strlit("BackgroundNormal");
    reveal_strlit("BackgroundAlternate");
    reveal_strlit("DecorationFocus");
    reveal_strlit("DecorationHover");
    assert("ForegroundNormal"@[10] != "ForegroundActive"@[10]);
    assert("ForegroundNormal"@[0] != "BackgroundNormal"@[0]);
    assert("ForegroundInactive"@[10] != "ForegroundNegative"@[10]);
    assert("ForegroundInactive"@[10] != "ForegroundPositive"@[10]);
    assert("ForegroundActive"@[0] != "BackgroundNormal"@[0]);
    assert("ForegroundVisited"@[10] != "ForegroundNeutral"@[10]);
    assert("ForegroundNegative"@[10] != "ForegroundPositive"@[10]);
    assert("DecorationFocus"@[10] != "DecorationHover"@[10]);
}

/// The cascade for one key: the theme section's color, else the global
/// section's, else `d`.
fn pick_key(ts: Option<&RawConfig>, gs: Option<&RawConfig>, key: &str, d: Rgb) -> (r: Rgb)
    ensures
        r == pick(opt_tree(ts), opt_tree(gs), key@, d),
{
    let from_theme = match ts {
        Some(s) => parse_triplet(s.child(key)),
        None => None,
    };
    match from_theme {
        Some(v) => v,
        None => {
            let from_globals = match gs {
                Some(s) => parse_triplet(s.child(key)),
                None => None,
            };
            match from_globals {
                Some(v) => v,
                None => d,
            }
        },
    }
}

/// Resolve one color group with the theme → kdeglobals → defaults cascade.
pub fn resolve_group(theme: Option<&RawConfig>, globals: Option<&RawConfig>, group: &str) -> (r: ColorGroup)
    requires
        is_group_name(group@),
    ensures
        r == resolved_group(opt_tree(theme), opt_tree(globals), group@),
{
    let d = default_for(group);
    let ts = match theme {
        Some(t) => t.get(group),
        None => None,
    };
    let gs = match globals {
        Some(g) => g.get(group),
        None => None,
    };
    assert(opt_tree(ts) == section_of(opt_tree(theme), group@));
    assert(opt_tree(gs) == section_of(opt_tree(globals), group@));
    ColorGroup {
        fg_normal: pick_key(ts, gs, "ForegroundNormal", d.fg_normal),
        fg_inactive: pick_key(ts, gs, "ForegroundInactive", d.fg_inactive),
        fg_active: pick_key(ts, gs, "ForegroundActive", d.fg_active),
        fg_link: pick_key(ts, gs, "ForegroundLink", d.fg_link),
        fg_visited: pick_key(ts, gs, "ForegroundVisited", d.fg_visited),
        fg_negative: pick_key(ts, gs, "ForegroundNegative", d.fg_negative),
        fg_neutral: pick_key(ts, gs, "ForegroundNeutral", d.fg_neutral),
        fg_positive: pick_key(ts, gs, "ForegroundPositive", d.fg_positive),
        bg_normal: pick_key(ts, gs, "BackgroundNormal", d.bg_normal),
        bg_alternate: pick_key(ts, gs, "BackgroundAlternate", d.bg_alternate),
        deco_focus: pick_key(ts, gs, "DecorationFocus", d.deco_focus),
        deco_hover: pick_key(ts, gs, "DecorationHover", d.deco_hover),
    }
}

/// A fully resolved color scheme: the seven color groups that `KSvg` keeps
/// in `ImageSetPrivate`.
#[derive(Debug, Clone, Copy, PartialEq, Eq)]
pub struct ColorScheme {
    /// `Colors:Window`.
    pub window: ColorGroup,
    /// `Colors:Selection`.
    pub selection: ColorGroup,
    /// `Colors:Button`.
    pub button: ColorGroup,
    /// `Colors:View`.
    pub view: ColorGroup,
    /// `Colors:Complementary`.
    pub complementary: ColorGroup,
    /// `Colors:Header`.
    pub header: ColorGroup,
    /// `Colors:Tooltip`.
    pub tooltip: ColorGroup,
}

/// The number of stylesheet rules: six sets of role colors and the frame.
pub const SHEET_RULES: usize = 48;

/// The class name and color of stylesheet rule `i` (in
/// `ImageSetPrivate::svgStyleSheet` order; the last is the frame color).
pub open spec fn sheet_entry(s: ColorScheme, frame: Rgb, i: int) -> (Seq<char>, Rgb) {
    if i == 0 {
        ("Text"@, s.window.fg_normal)
    } else if i == 1 {
        ("Background"@, s.window.bg_normal)
    } else if i == 2 {
        ("Highlight"@, s.selection.bg_normal)
    } else if i == 3 {
        ("HighlightedText"@, s.selection.fg_normal)
    } else if i == 4 {
        ("PositiveText"@, s.window.fg_positive)
    } else if i == 5 {
        ("NeutralText"@, s.window.fg_neutral)
    } else if i == 6 {
        ("NegativeText"@, s.window.fg_negative)
    } else if i == 7 {
        ("ButtonText"@, s.button.fg_normal)
    } else if i == 8 {
        ("ButtonBackground"@, s.button.bg_normal)
    } else if i == 9 {
        ("ButtonHover"@, s.button.deco_hover)
    } else if i == 10 {
        ("ButtonFocus"@, s.button.deco_focus)
    } else if i == 11 {
        ("ButtonHighlightedText"@, s.selection.fg_normal)
    } else if i == 12 {
        ("ButtonPositiveText"@, s.button.fg_positive)
    } else if i == 13 {
        ("ButtonNeutralText"@, s.button.fg_neutral)
    } else if i == 14 {
        ("ButtonNegativeText"@, s.button.fg_negative)
    } else if i == 15 {
        ("ViewText"@, s.view.fg_normal)
    } else if i == 16 {
        ("ViewBackground"@, s.view.bg_normal)
    } else if i == 17 {
        ("ViewHover"@, s.view.deco_hover)
    } else if i == 18 {
        ("ViewFocus"@, s.view.deco_focus)
    } else if i == 19 {
        ("ViewHighlightedText"@, s.selection.fg_normal)
    } else if i == 20 {
        ("ViewPositiveText"@, s.view.fg_positive)
    } else if i == 21 {
        ("ViewNeutralText"@, s.view.fg_neutral)
    } else if i == 22 {
        ("ViewNegativeText"@, s.view.fg_negative)
    } else if i == 23 {
        ("TooltipText"@, s.tooltip.fg_normal)
    } else if i == 24 {
        ("TooltipBackground"@, s.tooltip.bg_normal)
    } else if i == 25 {
        ("TooltipHover"@, s.tooltip.deco_hover)
    } else if i == 26 {
        ("TooltipFocus"@, s.tooltip.deco_focus)
    } else if i == 27 {
        ("TooltipHighlightedText"@, s.selection.fg_normal)
    } else if i == 28 {
        ("TooltipPositiveText"@, s.tooltip.fg_positive)
    } else if i == 29 {
        ("TooltipNeutralText"@, s.tooltip.fg_neutral)
    } else if i == 30 {
        ("TooltipNegativeText"@, s.tooltip.fg_negative)
    } else if i == 31 {
        ("ComplementaryText"@, s.complementary.fg_normal)
    } else if i == 32 {
        ("ComplementaryBackground"@, s.complementary.bg_normal)
    } else if i == 33 {
        ("ComplementaryHover"@, s.complementary.deco_hover)
    } else if i == 34 {
        ("ComplementaryFocus"@, s.complementary.deco_focus)
    } else if i == 35 {
        ("ComplementaryHighlightedText"@, s.selection.fg_normal)
    } else if i == 36 {
        ("ComplementaryPositiveText"@, s.complementary.fg_positive)
    } else if i == 37 {
        ("ComplementaryNeutralText"@, s.complementary.fg_neutral)
    } else if i == 38 {
        ("ComplementaryNegativeText"@, s.complementary.fg_negative)
    } else if i == 39 {
        ("HeaderText"@, s.header.fg_normal)
    } else if i == 40 {
        ("HeaderBackground"@, s.header.bg_normal)
    } else if i == 41 {
        ("HeaderHover"@, s.header.deco_hover)
    } else if i == 42 {
        ("HeaderFocus"@, s.header.deco_focus)
    } else if i == 43 {
        ("HeaderHighlightedText"@, s.selection.fg_normal)
    } else if i == 44 {
        ("HeaderPositiveText"@, s.header.fg_positive)
    } else if i == 45 {
        ("HeaderNeutralText"@, s.header.fg_neutral)
    } else if i == 46 {
        ("HeaderNegativeText"@, s.header.fg_negative)
    } else {
        ("Frame"@, frame)
    }
}

/// The style sheet role that rule `i` colors.
pub open spec fn rule_role(i: int) -> StyleSheetColor {
    if i == 0 {
        StyleSheetColor::Text
    } else if i == 1 {
        StyleSheetColor::Background
    } else if i == 2 {
        StyleSheetColor::Highlight
    } else if i == 3 {
        StyleSheetColor::HighlightedText
    } else if i == 4 {
        StyleSheetColor::PositiveText
    } else if i == 5 {
        StyleSheetColor::NeutralText
    } else if i == 6 {
        StyleSheetColor::NegativeText
    } else if i == 7 {
        StyleSheetColor::ButtonText
    } else if i == 8 {
        StyleSheetColor::ButtonBackground
    } else if i == 9 {
        StyleSheetColor::ButtonHover
    } else if i == 10 {
        StyleSheetColor::ButtonFocus
    } else if i == 11 {
        StyleSheetColor::ButtonHighlightedText
    } else if i == 12 {
        StyleSheetColor::ButtonPositiveText
    } else if i == 13 {
        StyleSheetColor::ButtonNeutralText
    } else if i == 14 {
        StyleSheetColor::ButtonNegativeText
    } else if i == 15 {
        StyleSheetColor::ViewText
    } else if i == 16 {
        StyleSheetColor::ViewBackground
    } else if i == 17 {
        StyleSheetColor::ViewHover
    } else if i == 18 {
        StyleSheetColor::ViewFocus
    } else if i == 19 {
        StyleSheetColor::ViewHighlightedText
    } else if i == 20 {
        StyleSheetColor::ViewPositiveText
    } else if i == 21 {
        StyleSheetColor::ViewNeutralText
    } else if i == 22 {
        StyleSheetColor::ViewNegativeText
    } else if i == 23 {
        StyleSheetColor::TooltipText
    } else if i == 24 {
        StyleSheetColor::TooltipBackground
    } else if i == 25 {
        StyleSheetColor::TooltipHover
    } else if i == 26 {
        StyleSheetColor::TooltipFocus
    } else if i == 27 {
        StyleSheetColor::TooltipHighlightedText
    } else if i == 28 {
        StyleSheetColor::TooltipPositiveText
    } else if i == 29 {
        StyleSheetColor::TooltipNeutralText
    } else if i == 30 {
        StyleSheetColor::TooltipNegativeText
    } else if i == 31 {
        StyleSheetColor::ComplementaryText
    } else if i == 32 {
        StyleSheetColor::ComplementaryBackground
    } else if i == 33 {
        StyleSheetColor::ComplementaryHover
    } else if i == 34 {
        StyleSheetColor::ComplementaryFocus
    } else if i == 35 {
        StyleSheetColor::ComplementaryHighlightedText
    } else if i == 36 {
        StyleSheetColor::ComplementaryPositiveText
    } else if i == 37 {
        StyleSheetColor::ComplementaryNeutralText
    } else if i == 38 {
        StyleSheetColor::ComplementaryNegativeText
    } else if i == 39 {
        StyleSheetColor::HeaderText
    } else if i == 40 {
        StyleSheetColor::HeaderBackground
    } else if i == 41 {
        StyleSheetColor::HeaderHover
    } else if i == 42 {
        StyleSheetColor::HeaderFocus
    } else if i == 43 {
        StyleSheetColor::HeaderHighlightedText
    } else if i == 44 {
        StyleSheetColor::HeaderPositiveText
    } else if i == 45 {
        StyleSheetColor::HeaderNeutralText
    } else if i == 46 {
        StyleSheetColor::HeaderNegativeText
    } else {
        StyleSheetColor::Frame
    }
}

/// The position of a role's rule.
pub open spec fn role_rule(c: StyleSheetColor) -> int {
    match c {
        StyleSheetColor::Text => 0,
        StyleSheetColor::Background => 1,
        StyleSheetColor::Highlight => 2,
        StyleSheetColor::HighlightedText => 3,
        StyleSheetColor::PositiveText => 4,
        StyleSheetColor::NeutralText => 5,
        StyleSheetColor::NegativeText => 6,
        StyleSheetColor::ButtonText => 7,
        StyleSheetColor::ButtonBackground => 8,
        StyleSheetColor::ButtonHover => 9,
        StyleSheetColor::ButtonFocus => 10,
        StyleSheetColor::ButtonHighlightedText => 11,
        StyleSheetColor::ButtonPositiveText => 12,
        StyleSheetColor::ButtonNeutralText => 13,
        StyleSheetColor::ButtonNegativeText => 14,
        StyleSheetColor::ViewText => 15,
        StyleSheetColor::ViewBackground => 16,
        StyleSheetColor::ViewHover => 17,
        StyleSheetColor::ViewFocus => 18,
        StyleSheetColor::ViewHighlightedText => 19,
        StyleSheetColor::ViewPositiveText => 20,
        StyleSheetColor::ViewNeutralText => 21,
        StyleSheetColor::ViewNegativeText => 22,
        StyleSheetColor::TooltipText => 23,
        StyleSheetColor::TooltipBackground => 24,
        StyleSheetColor::TooltipHover => 25,
        StyleSheetColor::TooltipFocus => 26,
        StyleSheetColor::TooltipHighlightedText => 27,
        StyleSheetColor::TooltipPositiveText => 28,
        StyleSheetColor::TooltipNeutralText => 29,
        StyleSheetColor::TooltipNegativeText => 30,
        StyleSheetColor::ComplementaryText => 31,
        StyleSheetColor::ComplementaryBackground => 32,
        StyleSheetColor::ComplementaryHover => 33,
        StyleSheetColor::ComplementaryFocus => 34,
        StyleSheetColor::ComplementaryHighlightedText => 35,
        StyleSheetColor::ComplementaryPositiveText => 36,
        StyleSheetColor::ComplementaryNeutralText => 37,
        StyleSheetColor::ComplementaryNegativeText => 38,
        StyleSheetColor::HeaderText => 39,
        StyleSheetColor::HeaderBackground => 40,
        StyleSheetColor::HeaderHover => 41,
        StyleSheetColor::HeaderFocus => 42,
        StyleSheetColor::HeaderHighlightedText => 43,
        StyleSheetColor::HeaderPositiveText => 44,
        StyleSheetColor::HeaderNeutralText => 45,
        StyleSheetColor::HeaderNegativeText => 46,
        StyleSheetColor::Frame => 47,
    }
}

/// Rule `i` colors the role of its own class name, and no two rules share
/// one.
proof fn lemma_rule_roles(s: ColorScheme, frame: Rgb, i: int)
    requires
        0 <= i < SHEET_RULES,
    ensures
        sheet_entry(s, frame, i).0 == css_name_of(rule_role(i)),
        role_rule(rule_role(i)) == i,
{
    if i == 0 {
    } else if i == 1 {
    } else if i == 2 {
    } else if i == 3 {
    } else if i == 4 {
    } else if i == 5 {
    } else if i == 6 {
    } else if i == 7 {
    } else if i == 8 {
    } else if i == 9 {
    } else if i == 10 {
    } else if i == 11 {
    } else if i == 12 {
    } else if i == 13 {
    } else if i == 14 {
    } else if i == 15 {
    } else if i == 16 {
    } else if i == 17 {
    } else if i == 18 {
    } else if i == 19 {
    } else if i == 20 {
    } else if i == 21 {
    } else if i == 22 {
    } else if i == 23 {
    } else if i == 24 {
    } else if i == 25 {
    } else if i == 26 {
    } else if i == 27 {
    } else if i == 28 {
    } else if i == 29 {
    } else if i == 30 {
    } else if i == 31 {
    } else if i == 32 {
    } else if i == 33 {
    } else if i == 34 {
    } else if i == 35 {
    } else if i == 36 {
    } else if i == 37 {
    } else if i == 38 {
    } else if i == 39 {
    } else if i == 40 {
    } else if i == 41 {
    } else if i == 42 {
    } else if i == 43 {
    } else if i == 44 {
    } else if i == 45 {
    } else if i == 46 {
    } else if i == 47 {
    }
}

/// The fields that the style sheet reads, by their key names.
proof fn lemma_group_field_names(gr: ColorGroup)
    ensures
        group_field(gr, "ForegroundNormal"@) == Some(gr.fg_normal),
        group_field(gr, "BackgroundNormal"@) == Some(gr.bg_normal),
        group_field(gr, "DecorationFocus"@) == Some(gr.deco_focus),
        group_field(gr, "DecorationHover"@) == Some(gr.deco_hover),
        group_field(gr, "ForegroundPositive"@) == Some(gr.fg_positive),
        group_field(gr, "ForegroundNeutral"@) == Some(gr.fg_neutral),
        group_field(gr, "ForegroundNegative"@) == Some(gr.fg_negative),
        group_field(gr, "ForegroundLink"@) == Some(gr.fg_link),
        group_field(gr, "ForegroundVisited"@) == Some(gr.fg_visited),
{
    reveal_strlit("ForegroundNormal");
    reveal_strlit("ForegroundInactive");
    reveal_strlit("ForegroundActive");
    reveal_strlit("ForegroundLink");
    reveal_strlit("ForegroundVisited");
    reveal_strlit("ForegroundNegative");
    reveal_strlit("ForegroundNeutral");
    reveal_strlit("ForegroundPositive");
    reveal_strlit("BackgroundNormal");
    reveal_strlit("BackgroundAlternate");
    reveal_strlit("DecorationFocus");
    reveal_strlit("DecorationHover");
    assert("ForegroundNormal"@[10] != "ForegroundActive"@[10]);
    assert("ForegroundNormal"@[0] != "BackgroundNormal"@[0]);
    assert("ForegroundInactive"@[10] != "ForegroundNegative"@[10]);
    assert("ForegroundInactive"@[10] != "ForegroundPositive"@[10]);
    assert("ForegroundActive"@[0] != "BackgroundNormal"@[0]);
    assert("ForegroundVisited"@[10] != "ForegroundNeutral"@[10]);
    assert("ForegroundNegative"@[10] != "ForegroundPositive"@[10]);
    assert("DecorationFocus"@[10] != "DecorationHover"@[10]);
    assert("ForegroundNegative"@ != "ForegroundInactive"@);
    assert("ForegroundNegative"@.len() != "ForegroundNormal"@.len());
    assert("ForegroundNegative"@.len() != "ForegroundVisited"@.len());
    assert("ForegroundNeutral"@ != "ForegroundVisited"@);
    assert("ForegroundNeutral"@.len() != "ForegroundNegative"@.len());
    assert("ForegroundNeutral"@.len() != "ForegroundInactive"@.len());
    assert(group_field(gr, "ForegroundNegative"@) == Some(gr.fg_negative));
    assert(group_field(gr, "ForegroundNeutral"@) == Some(gr.fg_neutral));
}

/// A rule whose class is a role's name is that role's rule.
proof fn lemma_rule_of_role(s: ColorScheme, frame: Rgb, i: int, c: StyleSheetColor)
    requires
        0 <= i < SHEET_RULES,
        sheet_entry(s, frame, i).0 == css_name_of(c),
    ensures
        i == role_rule(c),
{
    lemma_rule_roles(s, frame, i);
    lemma_css_names_distinct(rule_role(i), c);
}

/// The color set of a style sheet prefix, by its enum.
pub open spec fn scheme_set(s: ColorScheme, g: PColorGroup) -> ColorGroup {
    match g {
        PColorGroup::Window => s.window,
        PColorGroup::View => s.view,
        PColorGroup::Button => s.button,
        PColorGroup::Selection => s.selection,
        PColorGroup::Tooltip => s.tooltip,
        PColorGroup::Complementary => s.complementary,
        PColorGroup::Header => s.header,
    }
}

/// The name of the color scheme key that a role key reads.
pub open spec fn key_entry_name(k: ColorKey) -> Option<Seq<char>> {
    match k {
        ColorKey::Foreground => Some("ForegroundNormal"@),
        ColorKey::Background => Some("BackgroundNormal"@),
        ColorKey::DecorationFocus => Some("DecorationFocus"@),
        ColorKey::DecorationHover => Some("DecorationHover"@),
        ColorKey::PositiveText => Some("ForegroundPositive"@),
        ColorKey::NeutralText => Some("ForegroundNeutral"@),
        ColorKey::NegativeText => Some("ForegroundNegative"@),
        ColorKey::Link => Some("ForegroundLink"@),
        ColorKey::Visited => Some("ForegroundVisited"@),
        _ => None,
    }
}

/// [`lemma_sheet_rule_colors`] for the `Window` set.
proof fn lemma_sheet_rules_window(s: ColorScheme, frame: Rgb, k: ColorKey, i: int)
    requires
        0 <= i < SHEET_RULES,
        role_suffix(k) is Some,
        key_entry_name(k) is Some,
        sheet_entry(s, frame, i).0 == role_prefix(PColorGroup::Window)->Some_0 + role_suffix(k)->Some_0,
    ensures
        Some(sheet_entry(s, frame, i).1) == group_field(scheme_set(s, PColorGroup::Window), key_entry_name(k)->Some_0),
{
    lemma_group_field_names(scheme_set(s, PColorGroup::Window));
    reveal_strlit("");
    match k {
        ColorKey::Foreground => {
            reveal_strlit("Text");
            assert(css_name_of(StyleSheetColor::Text) =~= ""@ + "Text"@);
            lemma_rule_of_role(s, frame, i, StyleSheetColor::Text);
        },
        ColorKey::Background => {
            reveal_strlit("Background");
            assert(css_name_of(StyleSheetColor::Background) =~= ""@ + "Background"@);
            lemma_rule_of_role(s, frame, i, StyleSheetColor::Background);
        },
        ColorKey::DecorationFocus => {
            reveal_strlit("Focus");
            reveal_strlit("Frame");
            lemma_rule_roles(s, frame, i);
            lemma_role_signature(rule_role(i));
            assert(css_signature("Focus"@) == (5int, 'F', ' ', ' '));
            assert(rule_role(i) == StyleSheetColor::Frame);
            assert("Frame"@[1] != "Focus"@[1]);
            assert(css_name_of(rule_role(i)) == "Frame"@);
            assert(false);
        },
        ColorKey::DecorationHover => {
            reveal_strlit("Hover");
            lemma_rule_roles(s, frame, i);
            lemma_role_signature(rule_role(i));
            assert(css_signature("Hover"@) == (5int, 'H', ' ', ' '));
            assert(false);
        },
        ColorKey::PositiveText => {
            reveal_strlit("PositiveText");
            assert(css_name_of(StyleSheetColor::PositiveText) =~= ""@ + "PositiveText"@);
            lemma_rule_of_role(s, frame, i, StyleSheetColor::PositiveText);
        },
        ColorKey::NeutralText => {
            reveal_strlit("NeutralText");
            assert(css_name_of(StyleSheetColor::NeutralText) =~= ""@ + "NeutralText"@);
            lemma_rule_of_role(s, frame, i, StyleSheetColor::NeutralText);
        },
        ColorKey::NegativeText => {
            reveal_strlit("NegativeText");
            assert(css_name_of(StyleSheetColor::NegativeText) =~= ""@ + "NegativeText"@);
            lemma_rule_of_role(s, frame, i, StyleSheetColor::NegativeText);
        },
        _ => {},
    }
}

/// [`lemma_sheet_rule_colors`] for the `View` set.
proof fn lemma_sheet_rules_view(s: ColorScheme, frame: Rgb, k: ColorKey, i: int)
    requires
        0 <= i < SHEET_RULES,
        role_suffix(k) is Some,
        key_entry_name(k) is Some,
        sheet_entry(s, frame, i).0 == role_prefix(PColorGroup::View)->Some_0 + role_suffix(k)->Some_0,
    ensures
        Some(sheet_entry(s, frame, i).1) == group_field(scheme_set(s, PColorGroup::View), key_entry_name(k)->Some_0),
{
    lemma_group_field_names(scheme_set(s, PColorGroup::View));
    reveal_strlit("View");
    match k {
        ColorKey::Foreground => {
            reveal_strlit("Text");
            reveal_strlit("ViewText");
            assert(css_name_of(StyleSheetColor::ViewText) =~= "View"@ + "Text"@);
            lemma_rule_of_role(s, frame, i, StyleSheetColor::ViewText);
        },
        ColorKey::Background => {
            reveal_strlit("Background");
            reveal_strlit("ViewBackground");
            assert(css_name_of(StyleSheetColor::ViewBackground) =~= "View"@ + "Background"@);
            lemma_rule_of_role(s, frame, i, StyleSheetColor::ViewBackground);
        },
        ColorKey::DecorationFocus => {
            reveal_strlit("Focus");
            reveal_strlit("ViewFocus");
            assert(css_name_of(StyleSheetColor::ViewFocus) =~= "View"@ + "Focus"@);
            lemma_rule_of_role(s, frame, i, StyleSheetColor::ViewFocus);
        },
        ColorKey::DecorationHover => {
            reveal_strlit("Hover");
            reveal_strlit("ViewHover");
            assert(css_name_of(StyleSheetColor::ViewHover) =~= "View"@ + "Hover"@);
            lemma_rule_of_role(s, frame, i, StyleSheetColor::ViewHover);
        },
        ColorKey::PositiveText => {
            reveal_strlit("PositiveText");
            reveal_strlit("ViewPositiveText");
            assert(css_name_of(StyleSheetColor::ViewPositiveText) =~= "View"@ + "PositiveText"@);
            lemma_rule_of_role(s, frame, i, StyleSheetColor::ViewPositiveText);
        },
        ColorKey::NeutralText => {
            reveal_strlit("NeutralText");
            reveal_strlit("ViewNeutralText");
            assert(css_name_of(StyleSheetColor::ViewNeutralText) =~= "View"@ + "NeutralText"@);
            lemma_rule_of_role(s, frame, i, StyleSheetColor::ViewNeutralText);
        },
        ColorKey::NegativeText => {
            reveal_strlit("NegativeText");
            reveal_strlit("ViewNegativeText");
            assert(css_name_of(StyleSheetColor::ViewNegativeText) =~= "View"@ + "NegativeText"@);
            lemma_rule_of_role(s, frame, i, StyleSheetColor::ViewNegativeText);
        },
        _ => {},
    }
}

/// [`lemma_sheet_rule_colors`] for the `Button` set.
proof fn lemma_sheet_rules_button(s: ColorScheme, frame: Rgb, k: ColorKey, i: int)
    requires
        0 <= i < SHEET_RULES,
        role_suffix(k) is Some,
        key_entry_name(k) is Some,
        sheet_entry(s, frame, i).0 == role_prefix(PColorGroup::Button)->Some_0 + role_suffix(k)->Some_0,
    ensures
        Some(sheet_entry(s, frame, i).1) == group_field(scheme_set(s, PColorGroup::Button), key_entry_name(k)->Some_0),
{
    lemma_group_field_names(scheme_set(s, PColorGroup::Button));
    reveal_strlit("Button");
    match k {
        ColorKey::Foreground => {
            reveal_strlit("Text");
            reveal_strlit("ButtonText");
            assert(css_name_of(StyleSheetColor::ButtonText) =~= "Button"@ + "Text"@);
            lemma_rule_of_role(s, frame, i, StyleSheetColor::ButtonText);
        },
        ColorKey::Background => {
            reveal_strlit("Background");
            reveal_strlit("ButtonBackground");
            assert(css_name_of(StyleSheetColor::ButtonBackground) =~= "Button"@ + "Background"@);
            lemma_rule_of_role(s, frame, i, StyleSheetColor::ButtonBackground);
        },
        ColorKey::DecorationFocus => {
            reveal_strlit("Focus");
            reveal_strlit("ButtonFocus");
            assert(css_name_of(StyleSheetColor::ButtonFocus) =~= "Button"@ + "Focus"@);
            lemma_rule_of_role(s, frame, i, StyleSheetColor::ButtonFocus);
        },
        ColorKey::DecorationHover => {
            reveal_strlit("Hover");
            reveal_strlit("ButtonHover");
            assert(css_name_of(StyleSheetColor::ButtonHover) =~= "Button"@ + "Hover"@);
            lemma_rule_of_role(s, frame, i, StyleSheetColor::ButtonHover);
        },
        ColorKey::PositiveText => {
            reveal_strlit("PositiveText");
            reveal_strlit("ButtonPositiveText");
            assert(css_name_of(StyleSheetColor::ButtonPositiveText) =~= "Button"@ + "PositiveText"@);
            lemma_rule_of_role(s, frame, i, StyleSheetColor::ButtonPositiveText);
        },
        ColorKey::NeutralText => {
            reveal_strlit("NeutralText");
            reveal_strlit("ButtonNeutralText");
            assert(css_name_of(StyleSheetColor::ButtonNeutralText) =~= "Button"@ + "NeutralText"@);
            lemma_rule_of_role(s, frame, i, StyleSheetColor::ButtonNeutralText);
        },
        ColorKey::NegativeText => {
            reveal_strlit("NegativeText");
            reveal_strlit("ButtonNegativeText");
            assert(css_name_of(StyleSheetColor::ButtonNegativeText) =~= "Button"@ + "NegativeText"@);
            lemma_rule_of_role(s, frame, i, StyleSheetColor::ButtonNegativeText);
        },
        _ => {},
    }
}

/// [`lemma_sheet_rule_colors`] for the `Tooltip` set.
proof fn lemma_sheet_rules_tooltip(s: ColorScheme, frame: Rgb, k: ColorKey, i: int)
    requires
        0 <= i < SHEET_RULES,
        role_suffix(k) is Some,
        key_entry_name(k) is Some,
        sheet_entry(s, frame, i).0 == role_prefix(PColorGroup::Tooltip)->Some_0 + role_suffix(k)->Some_0,
    ensures
        Some(sheet_entry(s, frame, i).1) == group_field(scheme_set(s, PColorGroup::Tooltip), key_entry_name(k)->Some_0),
{
    lemma_group_field_names(scheme_set(s, PColorGroup::Tooltip));
    reveal_strlit("Tooltip");
    match k {
        ColorKey::Foreground => {
            reveal_strlit("Text");
            reveal_strlit("TooltipText");
            assert(css_name_of(StyleSheetColor::TooltipText) =~= "Tooltip"@ + "Text"@);
            lemma_rule_of_role(s, frame, i, StyleSheetColor::TooltipText);
        },
        ColorKey::Background => {
            reveal_strlit("Background");
            reveal_strlit("TooltipBackground");
            assert(css_name_of(StyleSheetColor::TooltipBackground) =~= "Tooltip"@ + "Background"@);
            lemma_rule_of_role(s, frame, i, StyleSheetColor::TooltipBackground);
        },
        ColorKey::DecorationFocus => {
            reveal_strlit("Focus");
            reveal_strlit("TooltipFocus");
            assert(css_name_of(StyleSheetColor::TooltipFocus) =~= "Tooltip"@ + "Focus"@);
            lemma_rule_of_role(s, frame, i, StyleSheetColor::TooltipFocus);
        },
        ColorKey::DecorationHover => {
            reveal_strlit("Hover");
            reveal_strlit("TooltipHover");
            assert(css_name_of(StyleSheetColor::TooltipHover) =~= "Tooltip"@ + "Hover"@);
            lemma_rule_of_role(s, frame, i, StyleSheetColor::TooltipHover);
        },
        ColorKey::PositiveText => {
            reveal_strlit("PositiveText");
            reveal_strlit("TooltipPositiveText");
            assert(css_name_of(StyleSheetColor::TooltipPositiveText) =~= "Tooltip"@ + "PositiveText"@);
            lemma_rule_of_role(s, frame, i, StyleSheetColor::TooltipPositiveText);
        },
        ColorKey::NeutralText => {
            reveal_strlit("NeutralText");
            reveal_strlit("TooltipNeutralText");
            assert(css_name_of(StyleSheetColor::TooltipNeutralText) =~= "Tooltip"@ + "NeutralText"@);
            lemma_rule_of_role(s, frame, i, StyleSheetColor::TooltipNeutralText);
        },
        ColorKey::NegativeText => {
            reveal_strlit("NegativeText");
            reveal_strlit("TooltipNegativeText");
            assert(css_name_of(StyleSheetColor::TooltipNegativeText) =~= "Tooltip"@ + "NegativeText"@);
            lemma_rule_of_role(s, frame, i, StyleSheetColor::TooltipNegativeText);
        },
        _ => {},
    }
}

/// [`lemma_sheet_rule_colors`] for the `Complementary` set.
proof fn lemma_sheet_rules_complementary(s: ColorScheme, frame: Rgb, k: ColorKey, i: int)
    requires
        0 <= i < SHEET_RULES,
        role_suffix(k) is Some,
        key_entry_name(k) is Some,
        sheet_entry(s, frame, i).0 == role_prefix(PColorGroup::Complementary)->Some_0 + role_suffix(k)->Some_0,
    ensures
        Some(sheet_entry(s, frame, i).1) == group_field(scheme_set(s, PColorGroup::Complementary), key_entry_name(k)->Some_0),
{
    lemma_group_field_names(scheme_set(s, PColorGroup::Complementary));
    reveal_strlit("Complementary");
    match k {
        ColorKey::Foreground => {
            reveal_strlit("Text");
            reveal_strlit("ComplementaryText");
            assert(css_name_of(StyleSheetColor::ComplementaryText) =~= "Complementary"@ + "Text"@);
            lemma_rule_of_role(s, frame, i, StyleSheetColor::ComplementaryText);
        },
        ColorKey::Background => {
            reveal_strlit("Background");
            reveal_strlit("ComplementaryBackground");
            assert(css_name_of(StyleSheetColor::ComplementaryBackground) =~= "Complementary"@ + "Background"@);
            lemma_rule_of_role(s, frame, i, StyleSheetColor::ComplementaryBackground);
        },
        ColorKey::DecorationFocus => {
            reveal_strlit("Focus");
            reveal_strlit("ComplementaryFocus");
            assert(css_name_of(StyleSheetColor::ComplementaryFocus) =~= "Complementary"@ + "Focus"@);
            lemma_rule_of_role(s, frame, i, StyleSheetColor::ComplementaryFocus);
        },
        ColorKey::DecorationHover => {
            reveal_strlit("Hover");
            reveal_strlit("ComplementaryHover");
            assert(css_name_of(StyleSheetColor::ComplementaryHover) =~= "Complementary"@ + "Hover"@);
            lemma_rule_of_role(s, frame, i, StyleSheetColor::ComplementaryHover);
        },
        ColorKey::PositiveText => {
            reveal_strlit("PositiveText");
            reveal_strlit("ComplementaryPositiveText");
            assert(css_name_of(StyleSheetColor::ComplementaryPositiveText) =~= "Complementary"@ + "PositiveText"@);
            lemma_rule_of_role(s, frame, i, StyleSheetColor::ComplementaryPositiveText);
        },
        ColorKey::NeutralText => {
            reveal_strlit("NeutralText");
            reveal_strlit("ComplementaryNeutralText");
            assert(css_name_of(StyleSheetColor::ComplementaryNeutralText) =~= "Complementary"@ + "NeutralText"@);
            lemma_rule_of_role(s, frame, i, StyleSheetColor::ComplementaryNeutralText);
        },
        ColorKey::NegativeText => {
            reveal_strlit("NegativeText");
            reveal_strlit("ComplementaryNegativeText");
            assert(css_name_of(StyleSheetColor::ComplementaryNegativeText) =~= "Complementary"@ + "NegativeText"@);
            lemma_rule_of_role(s, frame, i, StyleSheetColor::ComplementaryNegativeText);
        },
        _ => {},
    }
}

/// [`lemma_sheet_rule_colors`] for the `Header` set.
proof fn lemma_sheet_rules_header(s: ColorScheme, frame: Rgb, k: ColorKey, i: int)
    requires
        0 <= i < SHEET_RULES,
        role_suffix(k) is Some,
        key_entry_name(k) is Some,
        sheet_entry(s, frame, i).0 == role_prefix(PColorGroup::Header)->Some_0 + role_suffix(k)->Some_0,
    ensures
        Some(sheet_entry(s, frame, i).1) == group_field(scheme_set(s, PColorGroup::Header), key_entry_name(k)->Some_0),
{
    lemma_group_field_names(scheme_set(s, PColorGroup::Header));
    reveal_strlit("Header");
    match k {
        ColorKey::Foreground => {
            reveal_strlit("Text");
            reveal_strlit("HeaderText");
            assert(css_name_of(StyleSheetColor::HeaderText) =~= "Header"@ + "Text"@);
            lemma_rule_of_role(s, frame, i, StyleSheetColor::HeaderText);
        },
        ColorKey::Background => {
            reveal_strlit("Background");
            reveal_strlit("HeaderBackground");
            assert(css_name_of(StyleSheetColor::HeaderBackground) =~= "Header"@ + "Background"@);
            lemma_rule_of_role(s, frame, i, StyleSheetColor::HeaderBackground);
        },
        ColorKey::DecorationFocus => {
            reveal_strlit("Focus");
            reveal_strlit("HeaderFocus");
            assert(css_name_of(StyleSheetColor::HeaderFocus) =~= "Header"@ + "Focus"@);
            lemma_rule_of_role(s, frame, i, StyleSheetColor::HeaderFocus);
        },
        ColorKey::DecorationHover => {
            reveal_strlit("Hover");
            reveal_strlit("HeaderHover");
            assert(css_name_of(StyleSheetColor::HeaderHover) =~= "Header"@ + "Hover"@);
            lemma_rule_of_role(s, frame, i, StyleSheetColor::HeaderHover);
        },
        ColorKey::PositiveText => {
            reveal_strlit("PositiveText");
            reveal_strlit("HeaderPositiveText");
            assert(css_name_of(StyleSheetColor::HeaderPositiveText) =~= "Header"@ + "PositiveText"@);
            lemma_rule_of_role(s, frame, i, StyleSheetColor::HeaderPositiveText);
        },
        ColorKey::NeutralText => {
            reveal_strlit("NeutralText");
            reveal_strlit("HeaderNeutralText");
            assert(css_name_of(StyleSheetColor::HeaderNeutralText) =~= "Header"@ + "NeutralText"@);
            lemma_rule_of_role(s, frame, i, StyleSheetColor::HeaderNeutralText);
        },
        ColorKey::NegativeText => {
            reveal_strlit("NegativeText");
            reveal_strlit("HeaderNegativeText");
            assert(css_name_of(StyleSheetColor::HeaderNegativeText) =~= "Header"@ + "NegativeText"@);
            lemma_rule_of_role(s, frame, i, StyleSheetColor::HeaderNegativeText);
        },
        _ => {},
    }
}

/// Each stylesheet rule shows the color its class names: a rule whose class
/// is a set's prefix (`Button`, `View`, ...; none for the window set)
/// followed by a key's suffix (`Text`, `Background`, `Hover`, `Focus`,
/// `PositiveText`, ...) carries that set's color of that key (`Text` is
/// `ForegroundNormal`, `Focus` is `DecorationFocus`, ...).
pub proof fn lemma_sheet_rule_colors(s: ColorScheme, frame: Rgb, g: PColorGroup, k: ColorKey, i: int)
    requires
        0 <= i < SHEET_RULES,
        role_prefix(g) is Some,
        role_suffix(k) is Some,
        key_entry_name(k) is Some,
        sheet_entry(s, frame, i).0 == role_prefix(g)->Some_0 + role_suffix(k)->Some_0,
    ensures
        Some(sheet_entry(s, frame, i).1) == group_field(scheme_set(s, g), key_entry_name(k)->Some_0),
{
    match g {
        PColorGroup::Window => lemma_sheet_rules_window(s, frame, k, i),
        PColorGroup::View => lemma_sheet_rules_view(s, frame, k, i),
        PColorGroup::Button => lemma_sheet_rules_button(s, frame, k, i),
        PColorGroup::Tooltip => lemma_sheet_rules_tooltip(s, frame, k, i),
        PColorGroup::Complementary => lemma_sheet_rules_complementary(s, frame, k, i),
        PColorGroup::Header => lemma_sheet_rules_header(s, frame, k, i),
        PColorGroup::Selection => {},
    }
}

/// One CSS rule: `.ColorScheme-<class>{color:#rrggbb;}`.
pub open spec fn rule_text(class: Seq<char>, c: Rgb) -> Seq<char> {
    ".ColorScheme-"@ + class + "{color:#"@ + hex2(c.0) + hex2(c.1) + hex2(c.2) + ";}"@
}

/// The first `n` rules of the stylesheet.
pub open spec fn sheet_upto(s: ColorScheme, frame: Rgb, n: int) -> Seq<char>
    decreases n,
{
    if n <= 0 {
        Seq::empty()
    } else {
        let (class, c) = sheet_entry(s, frame, n - 1);
        sheet_upto(s, frame, n - 1) + rule_text(class, c)
    }
}

impl ColorScheme {
    /// Build the scheme from the theme's `colors` file and `kdeglobals`, as
    /// parsed configurations when present: every group through the
    /// theme → kdeglobals → defaults cascade.
    pub fn load(theme: Option<&RawConfig>, globals: Option<&RawConfig>) -> (s: ColorScheme)
        ensures
            s.window == resolved_group(opt_tree(theme), opt_tree(globals), "Colors:Window"@),
            s.selection == resolved_group(opt_tree(theme), opt_tree(globals), "Colors:Selection"@),
            s.button == resolved_group(opt_tree(theme), opt_tree(globals), "Colors:Button"@),
            s.view == resolved_group(opt_tree(theme), opt_tree(globals), "Colors:View"@),
            s.complementary == resolved_group(opt_tree(theme), opt_tree(globals), "Colors:Complementary"@),
            s.header == resolved_group(opt_tree(theme), opt_tree(globals), "Colors:Header"@),
            s.tooltip == resolved_group(opt_tree(theme), opt_tree(globals), "Colors:Tooltip"@),
    {
        ColorScheme {
            window: resolve_group(theme, globals, "Colors:Window"),
            selection: resolve_group(theme, globals, "Colors:Selection"),
            button: resolve_group(theme, globals, "Colors:Button"),
            view: resolve_group(theme, globals, "Colors:View"),
            complementary: resolve_group(theme, globals, "Colors:Complementary"),
            header: resolve_group(theme, globals, "Colors:Header"),
            tooltip: resolve_group(theme, globals, "Colors:Tooltip"),
        }
    }

    /// The class name and color of stylesheet rule `i`.
    fn entry_at(&self, frame: Rgb, i: usize) -> (r: (&'static str, Rgb))
        ensures
            (r.0@, r.1) == sheet_entry(*self, frame, i as int),
    {
        match i {
        0 => ("Text", self.window.fg_normal),
        1 => ("Background", self.window.bg_normal),
        2 => ("Highlight", self.selection.bg_normal),
        3 => ("HighlightedText", self.selection.fg_normal),
        4 => ("PositiveText", self.window.fg_positive),
        5 => ("NeutralText", self.window.fg_neutral),
        6 => ("NegativeText", self.window.fg_negative),
        7 => ("ButtonText", self.button.fg_normal),
        8 => ("ButtonBackground", self.button.bg_normal),
        9 => ("ButtonHover", self.button.deco_hover),
        10 => ("ButtonFocus", self.button.deco_focus),
        11 => ("ButtonHighlightedText", self.selection.fg_normal),
        12 => ("ButtonPositiveText", self.button.fg_positive),
        13 => ("ButtonNeutralText", self.button.fg_neutral),
        14 => ("ButtonNegativeText", self.button.fg_negative),
        15 => ("ViewText", self.view.fg_normal),
        16 => ("ViewBackground", self.view.bg_normal),
        17 => ("ViewHover", self.view.deco_hover),
        18 => ("ViewFocus", self.view.deco_focus),
        19 => ("ViewHighlightedText", self.selection.fg_normal),
        20 => ("ViewPositiveText", self.view.fg_positive),
        21 => ("ViewNeutralText", self.view.fg_neutral),
        22 => ("ViewNegativeText", self.view.fg_negative),
        23 => ("TooltipText", self.tooltip.fg_normal),
        24 => ("TooltipBackground", self.tooltip.bg_normal),
        25 => ("TooltipHover", self.tooltip.deco_hover),
        26 => ("TooltipFocus", self.tooltip.deco_focus),
        27 => ("TooltipHighlightedText", self.selection.fg_normal),
        28 => ("TooltipPositiveText", self.tooltip.fg_positive),
        29 => ("TooltipNeutralText", self.tooltip.fg_neutral),
        30 => ("TooltipNegativeText", self.tooltip.fg_negative),
        31 => ("ComplementaryText", self.complementary.fg_normal),
        32 => ("ComplementaryBackground", self.complementary.bg_normal),
        33 => ("ComplementaryHover", self.complementary.deco_hover),
        34 => ("ComplementaryFocus", self.complementary.deco_focus),
        35 => ("ComplementaryHighlightedText", self.selection.fg_normal),
        36 => ("ComplementaryPositiveText", self.complementary.fg_positive),
        37 => ("ComplementaryNeutralText", self.complementary.fg_neutral),
        38 => ("ComplementaryNegativeText", self.complementary.fg_negative),
        39 => ("HeaderText", self.header.fg_normal),
        40 => ("HeaderBackground", self.header.bg_normal),
        41 => ("HeaderHover", self.header.deco_hover),
        42 => ("HeaderFocus", self.header.deco_focus),
        43 => ("HeaderHighlightedText", self.selection.fg_normal),
        44 => ("HeaderPositiveText", self.header.fg_positive),
        45 => ("HeaderNeutralText", self.header.fg_neutral),
        46 => ("HeaderNegativeText", self.header.fg_negative),
        _ => ("Frame", frame),
        }
    }

    /// The `ColorScheme-*` stylesheet used for SVG color substitution
    /// (`ImageSetPrivate::svgStyleSheet` for the Window set with Normal
    /// status), ending with the frame color: the mix of the window
    /// background toward its text by the frame contrast, given as `frame`.
    pub fn stylesheet(&self, frame: Rgb) -> (css: String)
        ensures
            css@ == sheet_upto(*self, frame, SHEET_RULES as int),
    {
        let mut css = String::new();
        let mut i: usize = 0;
        while i < SHEET_RULES
            invariant
                i <= SHEET_RULES,
                css@ == sheet_upto(*self, frame, i as int),
            decreases SHEET_RULES - i,
        {
            let (class, c) = self.entry_at(frame, i);
            let ghost before = css@;
            push_str(&mut css, ".ColorScheme-");
            push_str(&mut css, class);
            push_str(&mut css, "{color:#");
            push_hex2(&mut css, c.0);
            push_hex2(&mut css, c.1);
            push_hex2(&mut css, c.2);
            push_str(&mut css, ";}");
            assert(css@ =~= before + rule_text(class@, c));
            i += 1;
        }
        css
    }
}

/// Whether a trimmed line opens a group: `[` ... `]`.
pub open spec fn is_group_line(line: Seq<char>) -> bool {
    line.len() > 0 && line[0] == '[' && line.last() == ']'
}

/// One line of an INI file read into `(configuration, current group)`:
/// empty lines and `#` comments are skipped, `[name]` opens group `name`,
/// and `key=value` (both trimmed) is set under the open group, if any.
pub open spec fn ini_step(st: (Tree, Seq<char>), line: Seq<char>) -> (Tree, Seq<char>) {
    let (t, g) = st;
    if line.len() == 0 || line[0] == '#' {
        st
    } else if is_group_line(line) {
        (t, line.subrange(1, line.len() - 1))
    } else {
        match find_char(line, '=') {
            Some(i) => if g.len() == 0 {
                st
            } else {
                (put_sub(t, g, set_path(sub_of(t, g), trim(line.take(i)), trim(line.skip(i + 1)))), g)
            },
            None => st,
        }
    }
}

/// The state after reading the given trimmed lines from an empty root.
pub open spec fn ini_fold(lines: Seq<Seq<char>>) -> (Tree, Seq<char>)
    decreases lines.len(),
{
    if lines.len() == 0 {
        (fresh(Seq::empty()), Seq::empty())
    } else {
        ini_step(ini_fold(lines.drop_last()), lines.last())
    }
}

/// The configuration that an INI text holds, when it holds any group.
pub open spec fn parsed_ini(text: Seq<char>) -> Option<Tree> {
    let t = ini_fold(trimmed_lines(text)).0;
    if t.subs.len() > 0 {
        Some(t)
    } else {
        None
    }
}

/// Read INI text into a configuration tree whose groups are sub items
/// (each key set by path below its group), or `None` when no key landed in
/// any group.
pub fn parse_ini(text: &str) -> (r: Option<RawConfig>)
    ensures
        opt_tree(
            match &r {
                Some(c) => Some(c),
                None => None,
            },
        ) == parsed_ini(text@),
{
    let lines = trimmed_lines_of(text);
    let ghost ls = trimmed_lines(text@);
    let mut config = RawConfig::new("");
    let mut group: Vec<char> = Vec::new();
    let mut i: usize = 0;
    proof {
        reveal_strlit("");
        assert(""@ =~= Seq::<char>::empty());
        assert(group@ =~= Seq::<char>::empty());
        assert(ls.take(0) =~= Seq::<Seq<char>>::empty());
        assert(ini_fold(ls.take(0)) == (fresh(Seq::empty()), Seq::<char>::empty()));
    }
    while i < lines.len()
        invariant
            seqs_of(lines@) == ls,
            i <= lines@.len(),
            ini_fold(ls.take(i as int)) == (config@, group@),
        decreases lines.len() - i,
    {
        assert(ls.take(i + 1).drop_last() =~= ls.take(i as int));
        assert(ls.take(i + 1).last() == lines@[i as int]@);
        let line = &lines[i];
        let n = line.len();
        if n == 0 || line[0] == '#' {
        } else if line[0] == '[' && line[n - 1] == ']' {
            group = slice_chars(line, 1, n - 1);
        } else {
            match crate::text::find_chars(line, '=') {
                Some(eq) => {
                    proof {
                        crate::text::lemma_find_bounds(line@, '=');
                    }
                    if group.len() > 0 {
                        let k = slice_chars(line, 0, eq);
                        let v = slice_chars(line, eq + 1, n);
                        assert(k@ =~= line@.take(eq as int));
                        assert(v@ =~= line@.skip(eq + 1));
                        let key = string_of(&trim_chars(&k));
                        let value = string_of(&trim_chars(&v));
                        let name = string_of(&group);
                        let node = config.sub_mut(name.as_str());
                        node.set(key.as_str(), value.as_str());
                    }
                },
                None => {},
            }
        }
        i += 1;
    }
    assert(ls.take(lines.len() as int) =~= ls);
    if config.has_sub_items() {
        Some(config)
    } else {
        None
    }
}

/// The `[KDE]` entry `key` of an optional configuration.
pub open spec fn kde_value(cfg: Option<Tree>, key: Seq<char>) -> Option<Seq<char>> {
    match section_of(cfg, "KDE"@) {
        Some(s) => match child_of(s, key) {
            Some(c) => Some(c.value),
            None => None,
        },
        None => None,
    }
}

/// The raw value of `[KDE] key` in a configuration, if present (a numeric
/// setting such as `contrast`, read as a number by the caller).
pub fn kde_entry<'a>(config: Option<&'a RawConfig>, key: &str) -> (r: Option<&'a str>)
    ensures
        match r {
            Some(v) => kde_value(opt_tree(config), key@) == Some(v@),
            None => kde_value(opt_tree(config), key@) is None,
        },
{
    let c = match config {
        Some(c) => c,
        None => return None,
    };
    match c.get("KDE") {
        Some(kde) => match kde.child(key) {
            Some(n) => Some(n.value()),
            None => None,
        },
        None => None,
    }
}

} // verus!
