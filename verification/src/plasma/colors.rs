//! KDE color scheme parsing and role resolution.
//!
//! Parses KDE color scheme data from either the Plasma 6 `kdeglobals`
//! format (`[Colors:Window] BackgroundNormal=32,35,38`) or the legacy
//! `.colors` format (`[Colors:Window] Background=#202326`), and resolves the
//! named CSS colors (`.ColorScheme-*`) the way `KSvg::ImageSetPrivate::
//! namedColor` does (Window color set, normal status) and the theme.conf
//! colors the way `Plasma::Theme::color` does.
//!
//! A scheme is modelled by the map from (group, key) to color.

use vstd::prelude::*;
use crate::text::{chars_of, eq_str, hex2, is_digit, parse_hex_u32, parse_u8, push_char, push_hex2, push_str,
    seqs_of, split_on, split_once, split_once_chars, split_chars, strip_matches, strip_matches_chars, trim,
    trim_chars, trimmed_lines, trimmed_lines_of, parse_unsigned, parse_unsigned_chars, string_of, is_ws,
    lemma_trim_padded};
use crate::plasma::error::Error;

verus! {

/// An RGBA color.
#[derive(Clone, Copy, Debug, PartialEq, Eq, Structural)]
pub struct Color {
    /// Red channel.
    pub r: u8,
    /// Green channel.
    pub g: u8,
    /// Blue channel.
    pub b: u8,
    /// Alpha channel.
    pub a: u8,
}

/// The opaque color with the given channels.
pub open spec fn opaque_color(r: u8, g: u8, b: u8) -> Color {
    Color { r, g, b, a: 255 }
}

/// fcitx `Color::toString()`: `#rrggbb` when opaque, `#rrggbbaa` otherwise.
pub open spec fn fcitx_string(c: Color) -> Seq<char> {
    if c.a == 255 {
        seq!['#'] + hex2(c.r) + hex2(c.g) + hex2(c.b)
    } else {
        seq!['#'] + hex2(c.r) + hex2(c.g) + hex2(c.b) + hex2(c.a)
    }
}

/// `QColor::name()`: `#rrggbb`.
pub open spec fn css_string(c: Color) -> Seq<char> {
    seq!['#'] + hex2(c.r) + hex2(c.g) + hex2(c.b)
}

impl Color {
    /// Build an opaque color.
    pub fn opaque(r: u8, g: u8, b: u8) -> (c: Self)
        ensures
            c == opaque_color(r, g, b),
    {
        Self { r, g, b, a: 255 }
    }

    /// fcitx `Color::toString()`: `#rrggbb` when opaque, `#rrggbbaa` otherwise.
    pub fn to_fcitx_string(self) -> (s: String)
        ensures
            s@ == fcitx_string(self),
    {
        let mut s = String::new();
        push_char(&mut s, '#');
        push_hex2(&mut s, self.r);
        push_hex2(&mut s, self.g);
        push_hex2(&mut s, self.b);
        if self.a != 255 {
            push_hex2(&mut s, self.a);
        }
        assert(s@ =~= fcitx_string(self));
        s
    }

    /// `QColor::name()`-style: `#rrggbb`.
    pub fn to_css_string(self) -> (s: String)
        ensures
            s@ == css_string(self),
    {
        let mut s = String::new();
        push_char(&mut s, '#');
        push_hex2(&mut s, self.r);
        push_hex2(&mut s, self.g);
        push_hex2(&mut s, self.b);
        assert(s@ =~= css_string(self));
        s
    }
}

/// A KDE color scheme group (`[Colors:Window]` etc.).
#[derive(Clone, Copy, Debug, PartialEq, Eq, Hash, Structural)]
pub enum ColorGroup {
    /// `[Colors:Window]`
    Window,
    /// `[Colors:View]`
    View,
    /// `[Colors:Button]`
    Button,
    /// `[Colors:Selection]`
    Selection,
    /// `[Colors:Tooltip]`
    Tooltip,
    /// `[Colors:Complementary]`
    Complementary,
    /// `[Colors:Header]`
    Header,
}

/// The group a section name denotes, once `[Inactive]`-style qualifiers are
/// cut off and the rest is trimmed.
pub open spec fn group_named(base: Seq<char>) -> Option<ColorGroup> {
    if base == "Colors:Window"@ {
        Some(ColorGroup::Window)
    } else if base == "Colors:View"@ {
        Some(ColorGroup::View)
    } else if base == "Colors:Button"@ {
        Some(ColorGroup::Button)
    } else if base == "Colors:Selection"@ {
        Some(ColorGroup::Selection)
    } else if base == "Colors:Tooltip"@ {
        Some(ColorGroup::Tooltip)
    } else if base == "Colors:Complementary"@ {
        Some(ColorGroup::Complementary)
    } else if base == "Colors:Header"@ {
        Some(ColorGroup::Header)
    } else {
        None
    }
}

/// The color sets' sections are named after the sets' style sheet
/// prefixes: `[Colors:View]` holds the colors of the `View...` roles, and
/// so on; the window set (unprefixed roles) is `[Colors:Window]` and the
/// selection set `[Colors:Selection]`.
pub proof fn lemma_group_sections(g: ColorGroup)
    ensures
        role_prefix(g) is Some && role_prefix(g)->Some_0.len() > 0 ==> group_named(
            "Colors:"@ + role_prefix(g)->Some_0,
        ) == Some(g),
        group_named("Colors:"@ + "Window"@) == Some(ColorGroup::Window),
        group_named("Colors:"@ + "Selection"@) == Some(ColorGroup::Selection),
{
    reveal_strlit("Colors:Window");
    reveal_strlit("Window");
    reveal_strlit("Colors:View");
    reveal_strlit("View");
    reveal_strlit("Colors:Button");
    reveal_strlit("Button");
    reveal_strlit("Colors:Selection");
    reveal_strlit("Selection");
    reveal_strlit("Colors:Tooltip");
    reveal_strlit("Tooltip");
    reveal_strlit("Colors:Complementary");
    reveal_strlit("Complementary");
    reveal_strlit("Colors:Header");
    reveal_strlit("Header");
    reveal_strlit("Colors:");
    reveal_strlit("");
    assert("Colors:Window"@[7] != "Colors:Button"@[7]);
    assert("Colors:Window"@[7] != "Colors:Header"@[7]);
    assert("Colors:Button"@[7] != "Colors:Header"@[7]);
    assert("Colors:"@ + "Window"@ =~= "Colors:Window"@);
    assert("Colors:"@ + "View"@ =~= "Colors:View"@);
    assert("Colors:"@ + "Button"@ =~= "Colors:Button"@);
    assert("Colors:"@ + "Selection"@ =~= "Colors:Selection"@);
    assert("Colors:"@ + "Tooltip"@ =~= "Colors:Tooltip"@);
    assert("Colors:"@ + "Complementary"@ =~= "Colors:Complementary"@);
    assert("Colors:"@ + "Header"@ =~= "Colors:Header"@);
}

/// `ColorGroup::parse`: the text before the first `[`, trimmed, names the group.
pub open spec fn parse_group(name: Seq<char>) -> Option<ColorGroup> {
    group_named(trim(split_on(name, '[')[0]))
}

/// The `KColorScheme` fallback order of a color set.
pub open spec fn chain(g: ColorGroup) -> Seq<ColorGroup> {
    match g {
        ColorGroup::Window => seq![ColorGroup::Window, ColorGroup::View, ColorGroup::Selection],
        ColorGroup::View => seq![ColorGroup::View, ColorGroup::Window, ColorGroup::Selection],
        ColorGroup::Button => seq![ColorGroup::Button, ColorGroup::Window, ColorGroup::View, ColorGroup::Selection],
        ColorGroup::Tooltip => seq![ColorGroup::Tooltip, ColorGroup::Window, ColorGroup::View, ColorGroup::Selection],
        ColorGroup::Complementary => seq![ColorGroup::Complementary, ColorGroup::Window, ColorGroup::View, ColorGroup::Selection],
        ColorGroup::Header => seq![ColorGroup::Header, ColorGroup::Window, ColorGroup::View, ColorGroup::Selection],
        ColorGroup::Selection => seq![ColorGroup::Selection, ColorGroup::View, ColorGroup::Window],
    }
}

impl ColorGroup {
    /// Parse a group name, ignoring suffix qualifiers like `[Inactive]`.
    pub fn parse(name: &str) -> (r: Option<Self>)
        ensures
            r == parse_group(name@),
    {
        let chars = chars_of(name);
        let pieces = split_chars(&chars, '[');
        proof {
            crate::text::lemma_split_nonempty(name@, '[');
        }
        assert(seqs_of(pieces@)[0] == pieces@[0]@);
        let base = trim_chars(&pieces[0]);
        if eq_str(&base, "Colors:Window") {
            Some(Self::Window)
        } else if eq_str(&base, "Colors:View") {
            Some(Self::View)
        } else if eq_str(&base, "Colors:Button") {
            Some(Self::Button)
        } else if eq_str(&base, "Colors:Selection") {
            Some(Self::Selection)
        } else if eq_str(&base, "Colors:Tooltip") {
            Some(Self::Tooltip)
        } else if eq_str(&base, "Colors:Complementary") {
            Some(Self::Complementary)
        } else if eq_str(&base, "Colors:Header") {
            Some(Self::Header)
        } else {
            None
        }
    }

    /// `KColorScheme` fallback order when a key is missing from a color set:
    /// each role resolves from its own color set first.
    pub fn fallback_chain(self) -> (r: Vec<Self>)
        ensures
            r@ == chain(self),
    {
        let r = match self {
            Self::Window => vec![Self::Window, Self::View, Self::Selection],
            Self::View => vec![Self::View, Self::Window, Self::Selection],
            Self::Button => vec![Self::Button, Self::Window, Self::View, Self::Selection],
            Self::Tooltip => vec![Self::Tooltip, Self::Window, Self::View, Self::Selection],
            Self::Complementary => vec![Self::Complementary, Self::Window, Self::View, Self::Selection],
            Self::Header => vec![Self::Header, Self::Window, Self::View, Self::Selection],
            Self::Selection => vec![Self::Selection, Self::View, Self::Window],
        };
        assert(r@ =~= chain(self));
        r
    }
}

/// A color key inside a group.
#[derive(Clone, Copy, Debug, PartialEq, Eq, Hash, Structural)]
pub enum ColorKey {
    /// `Background` / `BackgroundNormal`
    Background,
    /// `Foreground` / `ForegroundNormal`
    Foreground,
    /// `DecorationFocus`
    DecorationFocus,
    /// `DecorationHover`
    DecorationHover,
    /// `Highlight` (View group only)
    Highlight,
    /// `HighlightedText` (View group only)
    HighlightedText,
    /// `Link` / `ForegroundLink`
    Link,
    /// `Visited` / `ForegroundVisited`
    Visited,
    /// `PositiveText` / `ForegroundPositive`
    PositiveText,
    /// `NeutralText` / `ForegroundNeutral`
    NeutralText,
    /// `NegativeText` / `ForegroundNegative`
    NegativeText,
    /// `Frame`
    Frame,
}

/// The key a (trimmed) raw key of either format denotes.
pub open spec fn key_named(k: Seq<char>) -> Option<ColorKey> {
    if k == "Background"@ || k == "BackgroundNormal"@ {
        Some(ColorKey::Background)
    } else if k == "Foreground"@ || k == "ForegroundNormal"@ {
        Some(ColorKey::Foreground)
    } else if k == "DecorationFocus"@ {
        Some(ColorKey::DecorationFocus)
    } else if k == "DecorationHover"@ {
        Some(ColorKey::DecorationHover)
    } else if k == "Highlight"@ {
        Some(ColorKey::Highlight)
    } else if k == "HighlightedText"@ {
        Some(ColorKey::HighlightedText)
    } else if k == "Link"@ || k == "ForegroundLink"@ {
        Some(ColorKey::Link)
    } else if k == "Visited"@ || k == "ForegroundVisited"@ {
        Some(ColorKey::Visited)
    } else if k == "PositiveText"@ || k == "ForegroundPositive"@ {
        Some(ColorKey::PositiveText)
    } else if k == "NeutralText"@ || k == "ForegroundNeutral"@ {
        Some(ColorKey::NeutralText)
    } else if k == "NegativeText"@ || k == "ForegroundNegative"@ {
        Some(ColorKey::NegativeText)
    } else if k == "Frame"@ {
        Some(ColorKey::Frame)
    } else {
        None
    }
}

/// The name written for a key in error messages.
pub open spec fn key_text(key: ColorKey) -> Seq<char> {
    match key {
        ColorKey::Background => "Background"@,
        ColorKey::Foreground => "Foreground"@,
        ColorKey::DecorationFocus => "DecorationFocus"@,
        ColorKey::DecorationHover => "DecorationHover"@,
        ColorKey::Highlight => "Highlight"@,
        ColorKey::HighlightedText => "HighlightedText"@,
        ColorKey::Link => "Link"@,
        ColorKey::Visited => "Visited"@,
        ColorKey::PositiveText => "PositiveText"@,
        ColorKey::NeutralText => "NeutralText"@,
        ColorKey::NegativeText => "NegativeText"@,
        ColorKey::Frame => "Frame"@,
    }
}

/// Keys read back: the name [`key_name`] gives a key, alone or padded with
/// whitespace on either side, is read by [`normalize_key`] as that key.
pub proof fn lemma_key_name_round_trip(k: ColorKey, l: Seq<char>, r: Seq<char>)
    requires
        forall|i: int| 0 <= i < l.len() ==> is_ws(#[trigger] l[i]),
        forall|i: int| 0 <= i < r.len() ==> is_ws(#[trigger] r[i]),
    ensures
        key_named(trim(l + key_text(k) + r)) == Some(k),
        key_named(trim(key_text(k))) == Some(k),
{
    reveal_strlit("Background");
    reveal_strlit("BackgroundNormal");
    reveal_strlit("Foreground");
    reveal_strlit("ForegroundNormal");
    reveal_strlit("DecorationFocus");
    reveal_strlit("DecorationHover");
    reveal_strlit("Highlight");
    reveal_strlit("HighlightedText");
    reveal_strlit("Link");
    reveal_strlit("ForegroundLink");
    reveal_strlit("Visited");
    reveal_strlit("ForegroundVisited");
    reveal_strlit("PositiveText");
    reveal_strlit("ForegroundPositive");
    reveal_strlit("NeutralText");
    reveal_strlit("ForegroundNeutral");
    reveal_strlit("NegativeText");
    reveal_strlit("ForegroundNegative");
    reveal_strlit("Frame");
    assert("Background"@[0] != "Foreground"@[0]);
    assert("BackgroundNormal"@[0] != "ForegroundNormal"@[0]);
    assert("DecorationFocus"@[10] != "DecorationHover"@[10]);
    assert("DecorationFocus"@[0] != "HighlightedText"@[0]);
    assert("DecorationHover"@[0] != "HighlightedText"@[0]);
    assert("ForegroundVisited"@[10] != "ForegroundNeutral"@[10]);
    assert("PositiveText"@[0] != "NegativeText"@[0]);
    assert("ForegroundPositive"@[10] != "ForegroundNegative"@[10]);
    let t = key_text(k);
    match k {
        ColorKey::Background => {
            reveal_strlit("Background");
        },
        ColorKey::Foreground => {
            reveal_strlit("Foreground");
        },
        ColorKey::DecorationFocus => {
            reveal_strlit("DecorationFocus");
        },
        ColorKey::DecorationHover => {
            reveal_strlit("DecorationHover");
        },
        ColorKey::Highlight => {
            reveal_strlit("Highlight");
        },
        ColorKey::HighlightedText => {
            reveal_strlit("HighlightedText");
        },
        ColorKey::Link => {
            reveal_strlit("Link");
        },
        ColorKey::Visited => {
            reveal_strlit("Visited");
        },
        ColorKey::PositiveText => {
            reveal_strlit("PositiveText");
        },
        ColorKey::NeutralText => {
            reveal_strlit("NeutralText");
        },
        ColorKey::NegativeText => {
            reveal_strlit("NegativeText");
        },
        ColorKey::Frame => {
            reveal_strlit("Frame");
        },
    }
    lemma_trim_padded(l, t, r);
    lemma_trim_padded(Seq::empty(), t, Seq::empty());
    assert(Seq::<char>::empty() + t + Seq::<char>::empty() =~= t);
}

/// The two formats name the same keys: the legacy `BackgroundNormal` and
/// `ForegroundNormal` are `Background` and `Foreground`, `ForegroundLink`
/// and `ForegroundVisited` are `Link` and `Visited`, and `ForegroundX` is
/// `XText` for the positive, neutral and negative text.
pub proof fn lemma_legacy_key_names()
    ensures
        key_named("Background"@ + "Normal"@) == key_named("Background"@),
        key_named("Foreground"@ + "Normal"@) == key_named("Foreground"@),
        key_named("Foreground"@ + "Link"@) == key_named("Link"@),
        key_named("Foreground"@ + "Visited"@) == key_named("Visited"@),
        key_named("Foreground"@ + "Positive"@) == key_named("Positive"@ + "Text"@),
        key_named("Foreground"@ + "Neutral"@) == key_named("Neutral"@ + "Text"@),
        key_named("Foreground"@ + "Negative"@) == key_named("Negative"@ + "Text"@),
        key_named("Background"@) == Some(ColorKey::Background),
        key_named("Foreground"@) == Some(ColorKey::Foreground),
        key_named("Link"@) == Some(ColorKey::Link),
        key_named("Visited"@) == Some(ColorKey::Visited),
        key_named("Positive"@ + "Text"@) == Some(ColorKey::PositiveText),
        key_named("Neutral"@ + "Text"@) == Some(ColorKey::NeutralText),
        key_named("Negative"@ + "Text"@) == Some(ColorKey::NegativeText),
{
    reveal_strlit("Background");
    reveal_strlit("BackgroundNormal");
    reveal_strlit("Foreground");
    reveal_strlit("ForegroundNormal");
    reveal_strlit("DecorationFocus");
    reveal_strlit("DecorationHover");
    reveal_strlit("Highlight");
    reveal_strlit("HighlightedText");
    reveal_strlit("Link");
    reveal_strlit("ForegroundLink");
    reveal_strlit("Visited");
    reveal_strlit("ForegroundVisited");
    reveal_strlit("PositiveText");
    reveal_strlit("ForegroundPositive");
    reveal_strlit("NeutralText");
    reveal_strlit("ForegroundNeutral");
    reveal_strlit("NegativeText");
    reveal_strlit("ForegroundNegative");
    reveal_strlit("Frame");
    reveal_strlit("Normal");
    reveal_strlit("Positive");
    reveal_strlit("Neutral");
    reveal_strlit("Negative");
    reveal_strlit("Text");
    assert("Background"@ + "Normal"@ =~= "BackgroundNormal"@);
    assert("Foreground"@ + "Normal"@ =~= "ForegroundNormal"@);
    assert("Foreground"@ + "Link"@ =~= "ForegroundLink"@);
    assert("Foreground"@ + "Visited"@ =~= "ForegroundVisited"@);
    assert("Foreground"@ + "Positive"@ =~= "ForegroundPositive"@);
    assert("Foreground"@ + "Neutral"@ =~= "ForegroundNeutral"@);
    assert("Foreground"@ + "Negative"@ =~= "ForegroundNegative"@);
    assert("Positive"@ + "Text"@ =~= "PositiveText"@);
    assert("Neutral"@ + "Text"@ =~= "NeutralText"@);
    assert("Negative"@ + "Text"@ =~= "NegativeText"@);
    assert("Background"@[0] != "Foreground"@[0]);
    assert("BackgroundNormal"@[0] != "ForegroundNormal"@[0]);
    assert("DecorationFocus"@[10] != "DecorationHover"@[10]);
    assert("DecorationFocus"@[0] != "HighlightedText"@[0]);
    assert("DecorationHover"@[0] != "HighlightedText"@[0]);
    assert("ForegroundVisited"@[10] != "ForegroundNeutral"@[10]);
    assert("PositiveText"@[0] != "NegativeText"@[0]);
    assert("ForegroundPositive"@[10] != "ForegroundNegative"@[10]);
    assert("BackgroundNormal"@[0] != "DecorationFocus"@[0]);
}

/// Map a raw key from either format onto a [`ColorKey`], ignoring unrelated keys.
pub fn normalize_key(key: &str) -> (r: Option<ColorKey>)
    ensures
        r == key_named(trim(key@)),
{
    let raw = chars_of(key);
    let k = trim_chars(&raw);
    if eq_str(&k, "Background") || eq_str(&k, "BackgroundNormal") {
        Some(ColorKey::Background)
    } else if eq_str(&k, "Foreground") || eq_str(&k, "ForegroundNormal") {
        Some(ColorKey::Foreground)
    } else if eq_str(&k, "DecorationFocus") {
        Some(ColorKey::DecorationFocus)
    } else if eq_str(&k, "DecorationHover") {
        Some(ColorKey::DecorationHover)
    } else if eq_str(&k, "Highlight") {
        Some(ColorKey::Highlight)
    } else if eq_str(&k, "HighlightedText") {
        Some(ColorKey::HighlightedText)
    } else if eq_str(&k, "Link") || eq_str(&k, "ForegroundLink") {
        Some(ColorKey::Link)
    } else if eq_str(&k, "Visited") || eq_str(&k, "ForegroundVisited") {
        Some(ColorKey::Visited)
    } else if eq_str(&k, "PositiveText") || eq_str(&k, "ForegroundPositive") {
        Some(ColorKey::PositiveText)
    } else if eq_str(&k, "NeutralText") || eq_str(&k, "ForegroundNeutral") {
        Some(ColorKey::NeutralText)
    } else if eq_str(&k, "NegativeText") || eq_str(&k, "ForegroundNegative") {
        Some(ColorKey::NegativeText)
    } else if eq_str(&k, "Frame") {
        Some(ColorKey::Frame)
    } else {
        None
    }
}

/// The name of a key, as written in error messages.
pub fn key_name(key: ColorKey) -> (r: &'static str)
    ensures
        r@ == key_text(key),
{
    match key {
        ColorKey::Background => "Background",
        ColorKey::Foreground => "Foreground",
        ColorKey::DecorationFocus => "DecorationFocus",
        ColorKey::DecorationHover => "DecorationHover",
        ColorKey::Highlight => "Highlight",
        ColorKey::HighlightedText => "HighlightedText",
        ColorKey::Link => "Link",
        ColorKey::Visited => "Visited",
        ColorKey::PositiveText => "PositiveText",
        ColorKey::NeutralText => "NeutralText",
        ColorKey::NegativeText => "NegativeText",
        ColorKey::Frame => "Frame",
    }
}

/// The color a trimmed `#rrggbb`, `#rrggbbaa` or `r,g,b` value denotes.
pub open spec fn color_value(v: Seq<char>) -> Option<Color> {
    if v.len() > 0 && v[0] == '#' {
        let hex = trim(v.drop_first());
        if hex.len() == 6 {
            match parse_hex_u32(hex) {
                Some(n) => Some(opaque_color(((n >> 16u32) & 0xffu32) as u8, ((n >> 8u32) & 0xffu32) as u8, (n & 0xffu32) as u8)),
                None => None,
            }
        } else if hex.len() == 8 {
            match parse_hex_u32(hex) {
                Some(n) => Some(Color {
                    r: ((n >> 24u32) & 0xffu32) as u8,
                    g: ((n >> 16u32) & 0xffu32) as u8,
                    b: ((n >> 8u32) & 0xffu32) as u8,
                    a: (n & 0xffu32) as u8,
                }),
                None => None,
            }
        } else {
            None
        }
    } else {
        let parts = split_on(v, ',');
        if parts.len() == 3 {
            match (parse_u8(trim(parts[0])), parse_u8(trim(parts[1])), parse_u8(trim(parts[2]))) {
                (Some(r), Some(g), Some(b)) => Some(opaque_color(r, g, b)),
                _ => None,
            }
        } else {
            None
        }
    }
}

/// Parse a color value: `#rrggbb`, `#rrggbbaa`, or `r,g,b` (surrounding
/// whitespace ignored); anything else is an [`Error::InvalidColor`] naming
/// `path`, `key` and the trimmed value.
pub fn parse_color(path: &str, key: &str, value: &str) -> (r: Result<Color, Error>)
    ensures
        match r {
            Ok(c) => color_value(trim(value@)) == Some(c),
            Err(e) => {
                &&& color_value(trim(value@)) is None
                &&& e matches Error::InvalidColor { path: p, key: k, value: v } && p@ == path@ && k@
                    == key@ && v@ == trim(value@)
            },
        },
{
    let raw = chars_of(value);
    let v = trim_chars(&raw);
    let invalid = Error::InvalidColor { path: path.to_owned(), key: key.to_owned(), value: string_of(&v) };
    if v.len() > 0 && v[0] == '#' {
        let rest = crate::text::slice_chars(&v, 1, v.len());
        assert(rest@ =~= v@.drop_first());
        let hex = trim_chars(&rest);
        if hex.len() == 6 {
            match parse_unsigned_chars(&hex, 16, 0xffff_ffff) {
                Some(n) => {
                    let n = n as u32;
                    Ok(Color::opaque(((n >> 16) & 0xff) as u8, ((n >> 8) & 0xff) as u8, (n & 0xff) as u8))
                },
                None => Err(invalid),
            }
        } else if hex.len() == 8 {
            match parse_unsigned_chars(&hex, 16, 0xffff_ffff) {
                Some(n) => {
                    let n = n as u32;
                    Ok(Color {
                        r: ((n >> 24) & 0xff) as u8,
                        g: ((n >> 16) & 0xff) as u8,
                        b: ((n >> 8) & 0xff) as u8,
                        a: (n & 0xff) as u8,
                    })
                },
                None => Err(invalid),
            }
        } else {
            Err(invalid)
        }
    } else {
        let parts = split_chars(&v, ',');
        if parts.len() != 3 {
            return Err(invalid);
        }
        assert(seqs_of(parts@)[0] == parts@[0]@);
        assert(seqs_of(parts@)[1] == parts@[1]@);
        assert(seqs_of(parts@)[2] == parts@[2]@);
        let p0 = trim_chars(&parts[0]);
        let p1 = trim_chars(&parts[1]);
        let p2 = trim_chars(&parts[2]);
        match (parse_unsigned_chars(&p0, 10, 255), parse_unsigned_chars(&p1, 10, 255), parse_unsigned_chars(&p2, 10, 255)) {
            (Some(r), Some(g), Some(b)) => Ok(Color::opaque(r as u8, g as u8, b as u8)),
            _ => Err(invalid),
        }
    }
}

/// A `KSvg` `StyleSheetColor` used to build the `current-color-scheme` CSS.
#[derive(Clone, Copy, Debug, PartialEq, Eq, Structural)]
pub enum StyleSheetColor {
    /// `.ColorScheme-Text`
    Text,
    /// `.ColorScheme-Background`
    Background,
    /// `.ColorScheme-Highlight`
    Highlight,
    /// `.ColorScheme-HighlightedText`
    HighlightedText,
    /// `.ColorScheme-PositiveText`
    PositiveText,
    /// `.ColorScheme-NeutralText`
    NeutralText,
    /// `.ColorScheme-NegativeText`
    NegativeText,
    /// `.ColorScheme-ButtonText`
    ButtonText,
    /// `.ColorScheme-ButtonBackground`
    ButtonBackground,
    /// `.ColorScheme-ButtonHover`
    ButtonHover,
    /// `.ColorScheme-ButtonFocus`
    ButtonFocus,
    /// `.ColorScheme-ButtonHighlightedText`
    ButtonHighlightedText,
    /// `.ColorScheme-ButtonPositiveText`
    ButtonPositiveText,
    /// `.ColorScheme-ButtonNeutralText`
    ButtonNeutralText,
    /// `.ColorScheme-ButtonNegativeText`
    ButtonNegativeText,
    /// `.ColorScheme-ViewText`
    ViewText,
    /// `.ColorScheme-ViewBackground`
    ViewBackground,
    /// `.ColorScheme-ViewHover`
    ViewHover,
    /// `.ColorScheme-ViewFocus`
    ViewFocus,
    /// `.ColorScheme-ViewHighlightedText`
    ViewHighlightedText,
    /// `.ColorScheme-ViewPositiveText`
    ViewPositiveText,
    /// `.ColorScheme-ViewNeutralText`
    ViewNeutralText,
    /// `.ColorScheme-ViewNegativeText`
    ViewNegativeText,
    /// `.ColorScheme-TooltipText`
    TooltipText,
    /// `.ColorScheme-TooltipBackground`
    TooltipBackground,
    /// `.ColorScheme-TooltipHover`
    TooltipHover,
    /// `.ColorScheme-TooltipFocus`
    TooltipFocus,
    /// `.ColorScheme-TooltipHighlightedText`
    TooltipHighlightedText,
    /// `.ColorScheme-TooltipPositiveText`
    TooltipPositiveText,
    /// `.ColorScheme-TooltipNeutralText`
    TooltipNeutralText,
    /// `.ColorScheme-TooltipNegativeText`
    TooltipNegativeText,
    /// `.ColorScheme-ComplementaryText`
    ComplementaryText,
    /// `.ColorScheme-ComplementaryBackground`
    ComplementaryBackground,
    /// `.ColorScheme-ComplementaryHover`
    ComplementaryHover,
    /// `.ColorScheme-ComplementaryFocus`
    ComplementaryFocus,
    /// `.ColorScheme-ComplementaryHighlightedText`
    ComplementaryHighlightedText,
    /// `.ColorScheme-ComplementaryPositiveText`
    ComplementaryPositiveText,
    /// `.ColorScheme-ComplementaryNeutralText`
    ComplementaryNeutralText,
    /// `.ColorScheme-ComplementaryNegativeText`
    ComplementaryNegativeText,
    /// `.ColorScheme-HeaderText`
    HeaderText,
    /// `.ColorScheme-HeaderBackground`
    HeaderBackground,
    /// `.ColorScheme-HeaderHover`
    HeaderHover,
    /// `.ColorScheme-HeaderFocus`
    HeaderFocus,
    /// `.ColorScheme-HeaderHighlightedText`
    HeaderHighlightedText,
    /// `.ColorScheme-HeaderPositiveText`
    HeaderPositiveText,
    /// `.ColorScheme-HeaderNeutralText`
    HeaderNeutralText,
    /// `.ColorScheme-HeaderNegativeText`
    HeaderNegativeText,
    /// `.ColorScheme-Frame`
    Frame,
}

/// The CSS class name of a role (without the `.ColorScheme-` prefix).
pub open spec fn css_name_of(c: StyleSheetColor) -> Seq<char> {
    match c {
        StyleSheetColor::Text => "Text"@,
        StyleSheetColor::Background => "Background"@,
        StyleSheetColor::Highlight => "Highlight"@,
        StyleSheetColor::HighlightedText => "HighlightedText"@,
        StyleSheetColor::PositiveText => "PositiveText"@,
        StyleSheetColor::NeutralText => "NeutralText"@,
        StyleSheetColor::NegativeText => "NegativeText"@,
        StyleSheetColor::ButtonText => "ButtonText"@,
        StyleSheetColor::ButtonBackground => "ButtonBackground"@,
        StyleSheetColor::ButtonHover => "ButtonHover"@,
        StyleSheetColor::ButtonFocus => "ButtonFocus"@,
        StyleSheetColor::ButtonHighlightedText => "ButtonHighlightedText"@,
        StyleSheetColor::ButtonPositiveText => "ButtonPositiveText"@,
        StyleSheetColor::ButtonNeutralText => "ButtonNeutralText"@,
        StyleSheetColor::ButtonNegativeText => "ButtonNegativeText"@,
        StyleSheetColor::ViewText => "ViewText"@,
        StyleSheetColor::ViewBackground => "ViewBackground"@,
        StyleSheetColor::ViewHover => "ViewHover"@,
        StyleSheetColor::ViewFocus => "ViewFocus"@,
        StyleSheetColor::ViewHighlightedText => "ViewHighlightedText"@,
        StyleSheetColor::ViewPositiveText => "ViewPositiveText"@,
        StyleSheetColor::ViewNeutralText => "ViewNeutralText"@,
        StyleSheetColor::ViewNegativeText => "ViewNegativeText"@,
        StyleSheetColor::TooltipText => "TooltipText"@,
        StyleSheetColor::TooltipBackground => "TooltipBackground"@,
        StyleSheetColor::TooltipHover => "TooltipHover"@,
        StyleSheetColor::TooltipFocus => "TooltipFocus"@,
        StyleSheetColor::TooltipHighlightedText => "TooltipHighlightedText"@,
        StyleSheetColor::TooltipPositiveText => "TooltipPositiveText"@,
        StyleSheetColor::TooltipNeutralText => "TooltipNeutralText"@,
        StyleSheetColor::TooltipNegativeText => "TooltipNegativeText"@,
        StyleSheetColor::ComplementaryText => "ComplementaryText"@,
        StyleSheetColor::ComplementaryBackground => "ComplementaryBackground"@,
        StyleSheetColor::ComplementaryHover => "ComplementaryHover"@,
        StyleSheetColor::ComplementaryFocus => "ComplementaryFocus"@,
        StyleSheetColor::ComplementaryHighlightedText => "ComplementaryHighlightedText"@,
        StyleSheetColor::ComplementaryPositiveText => "ComplementaryPositiveText"@,
        StyleSheetColor::ComplementaryNeutralText => "ComplementaryNeutralText"@,
        StyleSheetColor::ComplementaryNegativeText => "ComplementaryNegativeText"@,
        StyleSheetColor::HeaderText => "HeaderText"@,
        StyleSheetColor::HeaderBackground => "HeaderBackground"@,
        StyleSheetColor::HeaderHover => "HeaderHover"@,
        StyleSheetColor::HeaderFocus => "HeaderFocus"@,
        StyleSheetColor::HeaderHighlightedText => "HeaderHighlightedText"@,
        StyleSheetColor::HeaderPositiveText => "HeaderPositiveText"@,
        StyleSheetColor::HeaderNeutralText => "HeaderNeutralText"@,
        StyleSheetColor::HeaderNegativeText => "HeaderNegativeText"@,
        StyleSheetColor::Frame => "Frame"@,
    }
}

/// A few letters of a class name, with its length, that already tell the
/// roles' names apart.
pub open spec fn css_signature(s: Seq<char>) -> (int, char, char, char) {
    if s.len() >= 9 {
        (s.len() as int, s[0], s[s.len() - 9], s[s.len() - 5])
    } else if s.len() > 0 {
        (s.len() as int, s[0], ' ', ' ')
    } else {
        (0, ' ', ' ', ' ')
    }
}

/// The signature of each role's class name.
pub open spec fn role_signature(c: StyleSheetColor) -> (int, char, char, char) {
    match c {
        StyleSheetColor::Text => (4, 'T', ' ', ' '),
        StyleSheetColor::Background => (10, 'B', 'a', 'r'),
        StyleSheetColor::Highlight => (9, 'H', 'H', 'l'),
        StyleSheetColor::HighlightedText => (15, 'H', 'g', 'd'),
        StyleSheetColor::PositiveText => (12, 'P', 'i', 'e'),
        StyleSheetColor::NeutralText => (11, 'N', 'u', 'l'),
        StyleSheetColor::NegativeText => (12, 'N', 'a', 'e'),
        StyleSheetColor::ButtonText => (10, 'B', 'u', 'n'),
        StyleSheetColor::ButtonBackground => (16, 'B', 'a', 'r'),
        StyleSheetColor::ButtonHover => (11, 'B', 't', 'H'),
        StyleSheetColor::ButtonFocus => (11, 'B', 't', 'F'),
        StyleSheetColor::ButtonHighlightedText => (21, 'B', 'g', 'd'),
        StyleSheetColor::ButtonPositiveText => (18, 'B', 'i', 'e'),
        StyleSheetColor::ButtonNeutralText => (17, 'B', 'u', 'l'),
        StyleSheetColor::ButtonNegativeText => (18, 'B', 'a', 'e'),
        StyleSheetColor::ViewText => (8, 'V', ' ', ' '),
        StyleSheetColor::ViewBackground => (14, 'V', 'a', 'r'),
        StyleSheetColor::ViewHover => (9, 'V', 'V', 'H'),
        StyleSheetColor::ViewFocus => (9, 'V', 'V', 'F'),
        StyleSheetColor::ViewHighlightedText => (19, 'V', 'g', 'd'),
        StyleSheetColor::ViewPositiveText => (16, 'V', 'i', 'e'),
        StyleSheetColor::ViewNeutralText => (15, 'V', 'u', 'l'),
        StyleSheetColor::ViewNegativeText => (16, 'V', 'a', 'e'),
        StyleSheetColor::TooltipText => (11, 'T', 'o', 'p'),
        StyleSheetColor::TooltipBackground => (17, 'T', 'a', 'r'),
        StyleSheetColor::TooltipHover => (12, 'T', 'l', 'H'),
        StyleSheetColor::TooltipFocus => (12, 'T', 'l', 'F'),
        StyleSheetColor::TooltipHighlightedText => (22, 'T', 'g', 'd'),
        StyleSheetColor::TooltipPositiveText => (19, 'T', 'i', 'e'),
        StyleSheetColor::TooltipNeutralText => (18, 'T', 'u', 'l'),
        StyleSheetColor::TooltipNegativeText => (19, 'T', 'a', 'e'),
        StyleSheetColor::ComplementaryText => (17, 'C', 'n', 'y'),
        StyleSheetColor::ComplementaryBackground => (23, 'C', 'a', 'r'),
        StyleSheetColor::ComplementaryHover => (18, 'C', 't', 'H'),
        StyleSheetColor::ComplementaryFocus => (18, 'C', 't', 'F'),
        StyleSheetColor::ComplementaryHighlightedText => (28, 'C', 'g', 'd'),
        StyleSheetColor::ComplementaryPositiveText => (25, 'C', 'i', 'e'),
        StyleSheetColor::ComplementaryNeutralText => (24, 'C', 'u', 'l'),
        StyleSheetColor::ComplementaryNegativeText => (25, 'C', 'a', 'e'),
        StyleSheetColor::HeaderText => (10, 'H', 'e', 'r'),
        StyleSheetColor::HeaderBackground => (16, 'H', 'a', 'r'),
        StyleSheetColor::HeaderHover => (11, 'H', 'a', 'H'),
        StyleSheetColor::HeaderFocus => (11, 'H', 'a', 'F'),
        StyleSheetColor::HeaderHighlightedText => (21, 'H', 'g', 'd'),
        StyleSheetColor::HeaderPositiveText => (18, 'H', 'i', 'e'),
        StyleSheetColor::HeaderNeutralText => (17, 'H', 'u', 'l'),
        StyleSheetColor::HeaderNegativeText => (18, 'H', 'a', 'e'),
        StyleSheetColor::Frame => (5, 'F', ' ', ' '),
    }
}

/// The role whose class name has signature `k`.
pub open spec fn role_of_signature(k: (int, char, char, char)) -> Option<StyleSheetColor> {
    if k == (4int, 'T', ' ', ' ') {
        Some(StyleSheetColor::Text)
    } else if k == (10int, 'B', 'a', 'r') {
        Some(StyleSheetColor::Background)
    } else if k == (9int, 'H', 'H', 'l') {
        Some(StyleSheetColor::Highlight)
    } else if k == (15int, 'H', 'g', 'd') {
        Some(StyleSheetColor::HighlightedText)
    } else if k == (12int, 'P', 'i', 'e') {
        Some(StyleSheetColor::PositiveText)
    } else if k == (11int, 'N', 'u', 'l') {
        Some(StyleSheetColor::NeutralText)
    } else if k == (12int, 'N', 'a', 'e') {
        Some(StyleSheetColor::NegativeText)
    } else if k == (10int, 'B', 'u', 'n') {
        Some(StyleSheetColor::ButtonText)
    } else if k == (16int, 'B', 'a', 'r') {
        Some(StyleSheetColor::ButtonBackground)
    } else if k == (11int, 'B', 't', 'H') {
        Some(StyleSheetColor::ButtonHover)
    } else if k == (11int, 'B', 't', 'F') {
        Some(StyleSheetColor::ButtonFocus)
    } else if k == (21int, 'B', 'g', 'd') {
        Some(StyleSheetColor::ButtonHighlightedText)
    } else if k == (18int, 'B', 'i', 'e') {
        Some(StyleSheetColor::ButtonPositiveText)
    } else if k == (17int, 'B', 'u', 'l') {
        Some(StyleSheetColor::ButtonNeutralText)
    } else if k == (18int, 'B', 'a', 'e') {
        Some(StyleSheetColor::ButtonNegativeText)
    } else if k == (8int, 'V', ' ', ' ') {
        Some(StyleSheetColor::ViewText)
    } else if k == (14int, 'V', 'a', 'r') {
        Some(StyleSheetColor::ViewBackground)
    } else if k == (9int, 'V', 'V', 'H') {
        Some(StyleSheetColor::ViewHover)
    } else if k == (9int, 'V', 'V', 'F') {
        Some(StyleSheetColor::ViewFocus)
    } else if k == (19int, 'V', 'g', 'd') {
        Some(StyleSheetColor::ViewHighlightedText)
    } else if k == (16int, 'V', 'i', 'e') {
        Some(StyleSheetColor::ViewPositiveText)
    } else if k == (15int, 'V', 'u', 'l') {
        Some(StyleSheetColor::ViewNeutralText)
    } else if k == (16int, 'V', 'a', 'e') {
        Some(StyleSheetColor::ViewNegativeText)
    } else if k == (11int, 'T', 'o', 'p') {
        Some(StyleSheetColor::TooltipText)
    } else if k == (17int, 'T', 'a', 'r') {
        Some(StyleSheetColor::TooltipBackground)
    } else if k == (12int, 'T', 'l', 'H') {
        Some(StyleSheetColor::TooltipHover)
    } else if k == (12int, 'T', 'l', 'F') {
        Some(StyleSheetColor::TooltipFocus)
    } else if k == (22int, 'T', 'g', 'd') {
        Some(StyleSheetColor::TooltipHighlightedText)
    } else if k == (19int, 'T', 'i', 'e') {
        Some(StyleSheetColor::TooltipPositiveText)
    } else if k == (18int, 'T', 'u', 'l') {
        Some(StyleSheetColor::TooltipNeutralText)
    } else if k == (19int, 'T', 'a', 'e') {
        Some(StyleSheetColor::TooltipNegativeText)
    } else if k == (17int, 'C', 'n', 'y') {
        Some(StyleSheetColor::ComplementaryText)
    } else if k == (23int, 'C', 'a', 'r') {
        Some(StyleSheetColor::ComplementaryBackground)
    } else if k == (18int, 'C', 't', 'H') {
        Some(StyleSheetColor::ComplementaryHover)
    } else if k == (18int, 'C', 't', 'F') {
        Some(StyleSheetColor::ComplementaryFocus)
    } else if k == (28int, 'C', 'g', 'd') {
        Some(StyleSheetColor::ComplementaryHighlightedText)
    } else if k == (25int, 'C', 'i', 'e') {
        Some(StyleSheetColor::ComplementaryPositiveText)
    } else if k == (24int, 'C', 'u', 'l') {
        Some(StyleSheetColor::ComplementaryNeutralText)
    } else if k == (25int, 'C', 'a', 'e') {
        Some(StyleSheetColor::ComplementaryNegativeText)
    } else if k == (10int, 'H', 'e', 'r') {
        Some(StyleSheetColor::HeaderText)
    } else if k == (16int, 'H', 'a', 'r') {
        Some(StyleSheetColor::HeaderBackground)
    } else if k == (11int, 'H', 'a', 'H') {
        Some(StyleSheetColor::HeaderHover)
    } else if k == (11int, 'H', 'a', 'F') {
        Some(StyleSheetColor::HeaderFocus)
    } else if k == (21int, 'H', 'g', 'd') {
        Some(StyleSheetColor::HeaderHighlightedText)
    } else if k == (18int, 'H', 'i', 'e') {
        Some(StyleSheetColor::HeaderPositiveText)
    } else if k == (17int, 'H', 'u', 'l') {
        Some(StyleSheetColor::HeaderNeutralText)
    } else if k == (18int, 'H', 'a', 'e') {
        Some(StyleSheetColor::HeaderNegativeText)
    } else if k == (5int, 'F', ' ', ' ') {
        Some(StyleSheetColor::Frame)
    } else {
        None
    }
}

pub proof fn lemma_role_signature(c: StyleSheetColor)
    ensures
        css_signature(css_name_of(c)) == role_signature(c),
        role_of_signature(role_signature(c)) == Some(c),
{
    match c {
        StyleSheetColor::Text => {
            reveal_strlit("Text");
        },
        StyleSheetColor::Background => {
            reveal_strlit("Background");
        },
        StyleSheetColor::Highlight => {
            reveal_strlit("Highlight");
        },
        StyleSheetColor::HighlightedText => {
            reveal_strlit("HighlightedText");
        },
        StyleSheetColor::PositiveText => {
            reveal_strlit("PositiveText");
        },
        StyleSheetColor::NeutralText => {
            reveal_strlit("NeutralText");
        },
        StyleSheetColor::NegativeText => {
            reveal_strlit("NegativeText");
        },
        StyleSheetColor::ButtonText => {
            reveal_strlit("ButtonText");
        },
        StyleSheetColor::ButtonBackground => {
            reveal_strlit("ButtonBackground");
        },
        StyleSheetColor::ButtonHover => {
            reveal_strlit("ButtonHover");
        },
        StyleSheetColor::ButtonFocus => {
            reveal_strlit("ButtonFocus");
        },
        StyleSheetColor::ButtonHighlightedText => {
            reveal_strlit("ButtonHighlightedText");
        },
        StyleSheetColor::ButtonPositiveText => {
            reveal_strlit("ButtonPositiveText");
        },
        StyleSheetColor::ButtonNeutralText => {
            reveal_strlit("ButtonNeutralText");
        },
        StyleSheetColor::ButtonNegativeText => {
            reveal_strlit("ButtonNegativeText");
        },
        StyleSheetColor::ViewText => {
            reveal_strlit("ViewText");
        },
        StyleSheetColor::ViewBackground => {
            reveal_strlit("ViewBackground");
        },
        StyleSheetColor::ViewHover => {
            reveal_strlit("ViewHover");
        },
        StyleSheetColor::ViewFocus => {
            reveal_strlit("ViewFocus");
        },
        StyleSheetColor::ViewHighlightedText => {
            reveal_strlit("ViewHighlightedText");
        },
        StyleSheetColor::ViewPositiveText => {
            reveal_strlit("ViewPositiveText");
        },
        StyleSheetColor::ViewNeutralText => {
            reveal_strlit("ViewNeutralText");
        },
        StyleSheetColor::ViewNegativeText => {
            reveal_strlit("ViewNegativeText");
        },
        StyleSheetColor::TooltipText => {
            reveal_strlit("TooltipText");
        },
        StyleSheetColor::TooltipBackground => {
            reveal_strlit("TooltipBackground");
        },
        StyleSheetColor::TooltipHover => {
            reveal_strlit("TooltipHover");
        },
        StyleSheetColor::TooltipFocus => {
            reveal_strlit("TooltipFocus");
        },
        StyleSheetColor::TooltipHighlightedText => {
            reveal_strlit("TooltipHighlightedText");
        },
        StyleSheetColor::TooltipPositiveText => {
            reveal_strlit("TooltipPositiveText");
        },
        StyleSheetColor::TooltipNeutralText => {
            reveal_strlit("TooltipNeutralText");
        },
        StyleSheetColor::TooltipNegativeText => {
            reveal_strlit("TooltipNegativeText");
        },
        StyleSheetColor::ComplementaryText => {
            reveal_strlit("ComplementaryText");
        },
        StyleSheetColor::ComplementaryBackground => {
            reveal_strlit("ComplementaryBackground");
        },
        StyleSheetColor::ComplementaryHover => {
            reveal_strlit("ComplementaryHover");
        },
        StyleSheetColor::ComplementaryFocus => {
            reveal_strlit("ComplementaryFocus");
        },
        StyleSheetColor::ComplementaryHighlightedText => {
            reveal_strlit("ComplementaryHighlightedText");
        },
        StyleSheetColor::ComplementaryPositiveText => {
            reveal_strlit("ComplementaryPositiveText");
        },
        StyleSheetColor::ComplementaryNeutralText => {
            reveal_strlit("ComplementaryNeutralText");
        },
        StyleSheetColor::ComplementaryNegativeText => {
            reveal_strlit("ComplementaryNegativeText");
        },
        StyleSheetColor::HeaderText => {
            reveal_strlit("HeaderText");
        },
        StyleSheetColor::HeaderBackground => {
            reveal_strlit("HeaderBackground");
        },
        StyleSheetColor::HeaderHover => {
            reveal_strlit("HeaderHover");
        },
        StyleSheetColor::HeaderFocus => {
            reveal_strlit("HeaderFocus");
        },
        StyleSheetColor::HeaderHighlightedText => {
            reveal_strlit("HeaderHighlightedText");
        },
        StyleSheetColor::HeaderPositiveText => {
            reveal_strlit("HeaderPositiveText");
        },
        StyleSheetColor::HeaderNeutralText => {
            reveal_strlit("HeaderNeutralText");
        },
        StyleSheetColor::HeaderNegativeText => {
            reveal_strlit("HeaderNegativeText");
        },
        StyleSheetColor::Frame => {
            reveal_strlit("Frame");
        },
    }
}

/// No two roles share a CSS class name, so each `.ColorScheme-` rule of a
/// stylesheet names exactly one role.
pub proof fn lemma_css_names_distinct(a: StyleSheetColor, b: StyleSheetColor)
    requires
        css_name_of(a) == css_name_of(b),
    ensures
        a == b,
{
    lemma_role_signature(a);
    lemma_role_signature(b);
}

/// The fallback depth of a role: how many roles its resolution may visit.
pub open spec fn rank(c: StyleSheetColor) -> nat {
    match c {
        StyleSheetColor::Text => 0,
        StyleSheetColor::Background => 0,
        StyleSheetColor::Highlight => 0,
        StyleSheetColor::HighlightedText => 0,
        StyleSheetColor::PositiveText => 1,
        StyleSheetColor::NeutralText => 1,
        StyleSheetColor::NegativeText => 1,
        StyleSheetColor::ButtonText => 1,
        StyleSheetColor::ButtonBackground => 1,
        StyleSheetColor::ButtonHover => 2,
        StyleSheetColor::ButtonFocus => 3,
        StyleSheetColor::ButtonHighlightedText => 1,
        StyleSheetColor::ButtonPositiveText => 2,
        StyleSheetColor::ButtonNeutralText => 2,
        StyleSheetColor::ButtonNegativeText => 2,
        StyleSheetColor::ViewText => 0,
        StyleSheetColor::ViewBackground => 0,
        StyleSheetColor::ViewHover => 1,
        StyleSheetColor::ViewFocus => 2,
        StyleSheetColor::ViewHighlightedText => 1,
        StyleSheetColor::ViewPositiveText => 1,
        StyleSheetColor::ViewNeutralText => 1,
        StyleSheetColor::ViewNegativeText => 1,
        StyleSheetColor::TooltipText => 1,
        StyleSheetColor::TooltipBackground => 1,
        StyleSheetColor::TooltipHover => 2,
        StyleSheetColor::TooltipFocus => 3,
        StyleSheetColor::TooltipHighlightedText => 1,
        StyleSheetColor::TooltipPositiveText => 2,
        StyleSheetColor::TooltipNeutralText => 2,
        StyleSheetColor::TooltipNegativeText => 2,
        StyleSheetColor::ComplementaryText => 1,
        StyleSheetColor::ComplementaryBackground => 1,
        StyleSheetColor::ComplementaryHover => 2,
        StyleSheetColor::ComplementaryFocus => 3,
        StyleSheetColor::ComplementaryHighlightedText => 1,
        StyleSheetColor::ComplementaryPositiveText => 2,
        StyleSheetColor::ComplementaryNeutralText => 2,
        StyleSheetColor::ComplementaryNegativeText => 2,
        StyleSheetColor::HeaderText => 1,
        StyleSheetColor::HeaderBackground => 1,
        StyleSheetColor::HeaderHover => 2,
        StyleSheetColor::HeaderFocus => 3,
        StyleSheetColor::HeaderHighlightedText => 1,
        StyleSheetColor::HeaderPositiveText => 2,
        StyleSheetColor::HeaderNeutralText => 2,
        StyleSheetColor::HeaderNegativeText => 2,
        StyleSheetColor::Frame => 0,
    }
}

impl StyleSheetColor {
    /// The CSS class name (without the `.ColorScheme-` prefix).
    pub fn css_name(self) -> (r: &'static str)
        ensures
            r@ == css_name_of(self),
    {
        match self {
            Self::Text => "Text",
            Self::Background => "Background",
            Self::Highlight => "Highlight",
            Self::HighlightedText => "HighlightedText",
            Self::PositiveText => "PositiveText",
            Self::NeutralText => "NeutralText",
            Self::NegativeText => "NegativeText",
            Self::ButtonText => "ButtonText",
            Self::ButtonBackground => "ButtonBackground",
            Self::ButtonHover => "ButtonHover",
            Self::ButtonFocus => "ButtonFocus",
            Self::ButtonHighlightedText => "ButtonHighlightedText",
            Self::ButtonPositiveText => "ButtonPositiveText",
            Self::ButtonNeutralText => "ButtonNeutralText",
            Self::ButtonNegativeText => "ButtonNegativeText",
            Self::ViewText => "ViewText",
            Self::ViewBackground => "ViewBackground",
            Self::ViewHover => "ViewHover",
            Self::ViewFocus => "ViewFocus",
            Self::ViewHighlightedText => "ViewHighlightedText",
            Self::ViewPositiveText => "ViewPositiveText",
            Self::ViewNeutralText => "ViewNeutralText",
            Self::ViewNegativeText => "ViewNegativeText",
            Self::TooltipText => "TooltipText",
            Self::TooltipBackground => "TooltipBackground",
            Self::TooltipHover => "TooltipHover",
            Self::TooltipFocus => "TooltipFocus",
            Self::TooltipHighlightedText => "TooltipHighlightedText",
            Self::TooltipPositiveText => "TooltipPositiveText",
            Self::TooltipNeutralText => "TooltipNeutralText",
            Self::TooltipNegativeText => "TooltipNegativeText",
            Self::ComplementaryText => "ComplementaryText",
            Self::ComplementaryBackground => "ComplementaryBackground",
            Self::ComplementaryHover => "ComplementaryHover",
            Self::ComplementaryFocus => "ComplementaryFocus",
            Self::ComplementaryHighlightedText => "ComplementaryHighlightedText",
            Self::ComplementaryPositiveText => "ComplementaryPositiveText",
            Self::ComplementaryNeutralText => "ComplementaryNeutralText",
            Self::ComplementaryNegativeText => "ComplementaryNegativeText",
            Self::HeaderText => "HeaderText",
            Self::HeaderBackground => "HeaderBackground",
            Self::HeaderHover => "HeaderHover",
            Self::HeaderFocus => "HeaderFocus",
            Self::HeaderHighlightedText => "HeaderHighlightedText",
            Self::HeaderPositiveText => "HeaderPositiveText",
            Self::HeaderNeutralText => "HeaderNeutralText",
            Self::HeaderNegativeText => "HeaderNegativeText",
            Self::Frame => "Frame",
        }
    }
}

/// The number of style sheet roles.
pub const ROLE_COUNT: usize = 48;

/// The position of a role in the style sheet's order.
pub open spec fn role_pos(c: StyleSheetColor) -> int {
    match c {
        StyleSheetColor::Text => 0,
        StyleSheetColor::Background => 1,
        StyleSheetColor::Highlight => 2,
        StyleSheetColor::HighlightedText => 3,
        StyleSheetColor::PositiveText => 4,
        StyleSheetColor::NeutralText => 5,
        StyleSheetColor::NegativeText => 6,
        StyleSheetColor::ButtonText => 7,
        StyleSheetColor::ButtonBackground => 8,
        StyleSheetColor::ButtonHover => 9,
        StyleSheetColor::ButtonFocus => 10,
        StyleSheetColor::ButtonHighlightedText => 11,
        StyleSheetColor::ButtonPositiveText => 12,
        StyleSheetColor::ButtonNeutralText => 13,
        StyleSheetColor::ButtonNegativeText => 14,
        StyleSheetColor::ViewText => 15,
        StyleSheetColor::ViewBackground => 16,
        StyleSheetColor::ViewHover => 17,
        StyleSheetColor::ViewFocus => 18,
        StyleSheetColor::ViewHighlightedText => 19,
        StyleSheetColor::ViewPositiveText => 20,
        StyleSheetColor::ViewNeutralText => 21,
        StyleSheetColor::ViewNegativeText => 22,
        StyleSheetColor::TooltipText => 23,
        StyleSheetColor::TooltipBackground => 24,
        StyleSheetColor::TooltipHover => 25,
        StyleSheetColor::TooltipFocus => 26,
        StyleSheetColor::TooltipHighlightedText => 27,
        StyleSheetColor::TooltipPositiveText => 28,
        StyleSheetColor::TooltipNeutralText => 29,
        StyleSheetColor::TooltipNegativeText => 30,
        StyleSheetColor::ComplementaryText => 31,
        StyleSheetColor::ComplementaryBackground => 32,
        StyleSheetColor::ComplementaryHover => 33,
        StyleSheetColor::ComplementaryFocus => 34,
        StyleSheetColor::ComplementaryHighlightedText => 35,
        StyleSheetColor::ComplementaryPositiveText => 36,
        StyleSheetColor::ComplementaryNeutralText => 37,
        StyleSheetColor::ComplementaryNegativeText => 38,
        StyleSheetColor::HeaderText => 39,
        StyleSheetColor::HeaderBackground => 40,
        StyleSheetColor::HeaderHover => 41,
        StyleSheetColor::HeaderFocus => 42,
        StyleSheetColor::HeaderHighlightedText => 43,
        StyleSheetColor::HeaderPositiveText => 44,
        StyleSheetColor::HeaderNeutralText => 45,
        StyleSheetColor::HeaderNegativeText => 46,
        StyleSheetColor::Frame => 47,
    }
}

proof fn lemma_role_pos_at(i: int)
    requires
        0 <= i < ROLE_COUNT,
    ensures
        role_pos(role_at(i)) == i,
{
    if i == 0 {
    } else if i == 1 {
    } else if i == 2 {
    } else if i == 3 {
    } else if i == 4 {
    } else if i == 5 {
    } else if i == 6 {
    } else if i == 7 {
    } else if i == 8 {
    } else if i == 9 {
    } else if i == 10 {
    } else if i == 11 {
    } else if i == 12 {
    } else if i == 13 {
    } else if i == 14 {
    } else if i == 15 {
    } else if i == 16 {
    } else if i == 17 {
    } else if i == 18 {
    } else if i == 19 {
    } else if i == 20 {
    } else if i == 21 {
    } else if i == 22 {
    } else if i == 23 {
    } else if i == 24 {
    } else if i == 25 {
    } else if i == 26 {
    } else if i == 27 {
    } else if i == 28 {
    } else if i == 29 {
    } else if i == 30 {
    } else if i == 31 {
    } else if i == 32 {
    } else if i == 33 {
    } else if i == 34 {
    } else if i == 35 {
    } else if i == 36 {
    } else if i == 37 {
    } else if i == 38 {
    } else if i == 39 {
    } else if i == 40 {
    } else if i == 41 {
    } else if i == 42 {
    } else if i == 43 {
    } else if i == 44 {
    } else if i == 45 {
    } else if i == 46 {
    } else if i == 47 {
    }
}

/// The style sheet lists every role exactly once: each role stands at one
/// position of the order, and no two positions hold the same role.
pub proof fn lemma_sheet_lists_each_role_once()
    ensures
        forall|c: StyleSheetColor| 0 <= #[trigger] role_pos(c) < ROLE_COUNT && role_at(role_pos(c)) == c,
        forall|i: int, j: int|
            0 <= i < ROLE_COUNT && 0 <= j < ROLE_COUNT && #[trigger] role_at(i) == #[trigger] role_at(j) ==> i == j,
{
    assert forall|i: int, j: int|
        0 <= i < ROLE_COUNT && 0 <= j < ROLE_COUNT && #[trigger] role_at(i) == #[trigger] role_at(j) implies i == j by {
        lemma_role_pos_at(i);
        lemma_role_pos_at(j);
    }
}

/// The style sheet role at position `i`, in the order of the `namedColors`
/// list in `ImageSetPrivate::svgStyleSheet`.
pub open spec fn role_at(i: int) -> StyleSheetColor {
    if i == 0 {
        StyleSheetColor::Text
    } else if i == 1 {
        StyleSheetColor::Background
    } else if i == 2 {
        StyleSheetColor::Highlight
    } else if i == 3 {
        StyleSheetColor::HighlightedText
    } else if i == 4 {
        StyleSheetColor::PositiveText
    } else if i == 5 {
        StyleSheetColor::NeutralText
    } else if i == 6 {
        StyleSheetColor::NegativeText
    } else if i == 7 {
        StyleSheetColor::ButtonText
    } else if i == 8 {
        StyleSheetColor::ButtonBackground
    } else if i == 9 {
        StyleSheetColor::ButtonHover
    } else if i == 10 {
        StyleSheetColor::ButtonFocus
    } else if i == 11 {
        StyleSheetColor::ButtonHighlightedText
    } else if i == 12 {
        StyleSheetColor::ButtonPositiveText
    } else if i == 13 {
        StyleSheetColor::ButtonNeutralText
    } else if i == 14 {
        StyleSheetColor::ButtonNegativeText
    } else if i == 15 {
        StyleSheetColor::ViewText
    } else if i == 16 {
        StyleSheetColor::ViewBackground
    } else if i == 17 {
        StyleSheetColor::ViewHover
    } else if i == 18 {
        StyleSheetColor::ViewFocus
    } else if i == 19 {
        StyleSheetColor::ViewHighlightedText
    } else if i == 20 {
        StyleSheetColor::ViewPositiveText
    } else if i == 21 {
        StyleSheetColor::ViewNeutralText
    } else if i == 22 {
        StyleSheetColor::ViewNegativeText
    } else if i == 23 {
        StyleSheetColor::TooltipText
    } else if i == 24 {
        StyleSheetColor::TooltipBackground
    } else if i == 25 {
        StyleSheetColor::TooltipHover
    } else if i == 26 {
        StyleSheetColor::TooltipFocus
    } else if i == 27 {
        StyleSheetColor::TooltipHighlightedText
    } else if i == 28 {
        StyleSheetColor::TooltipPositiveText
    } else if i == 29 {
        StyleSheetColor::TooltipNeutralText
    } else if i == 30 {
        StyleSheetColor::TooltipNegativeText
    } else if i == 31 {
        StyleSheetColor::ComplementaryText
    } else if i == 32 {
        StyleSheetColor::ComplementaryBackground
    } else if i == 33 {
        StyleSheetColor::ComplementaryHover
    } else if i == 34 {
        StyleSheetColor::ComplementaryFocus
    } else if i == 35 {
        StyleSheetColor::ComplementaryHighlightedText
    } else if i == 36 {
        StyleSheetColor::ComplementaryPositiveText
    } else if i == 37 {
        StyleSheetColor::ComplementaryNeutralText
    } else if i == 38 {
        StyleSheetColor::ComplementaryNegativeText
    } else if i == 39 {
        StyleSheetColor::HeaderText
    } else if i == 40 {
        StyleSheetColor::HeaderBackground
    } else if i == 41 {
        StyleSheetColor::HeaderHover
    } else if i == 42 {
        StyleSheetColor::HeaderFocus
    } else if i == 43 {
        StyleSheetColor::HeaderHighlightedText
    } else if i == 44 {
        StyleSheetColor::HeaderPositiveText
    } else if i == 45 {
        StyleSheetColor::HeaderNeutralText
    } else if i == 46 {
        StyleSheetColor::HeaderNegativeText
    } else {
        StyleSheetColor::Frame
    }
}

/// The style sheet role at position `i < ROLE_COUNT`.
pub fn role_at_index(i: usize) -> (c: StyleSheetColor)
    requires
        i < ROLE_COUNT,
    ensures
        c == role_at(i as int),
{
    match i {
        0 => StyleSheetColor::Text,
        1 => StyleSheetColor::Background,
        2 => StyleSheetColor::Highlight,
        3 => StyleSheetColor::HighlightedText,
        4 => StyleSheetColor::PositiveText,
        5 => StyleSheetColor::NeutralText,
        6 => StyleSheetColor::NegativeText,
        7 => StyleSheetColor::ButtonText,
        8 => StyleSheetColor::ButtonBackground,
        9 => StyleSheetColor::ButtonHover,
        10 => StyleSheetColor::ButtonFocus,
        11 => StyleSheetColor::ButtonHighlightedText,
        12 => StyleSheetColor::ButtonPositiveText,
        13 => StyleSheetColor::ButtonNeutralText,
        14 => StyleSheetColor::ButtonNegativeText,
        15 => StyleSheetColor::ViewText,
        16 => StyleSheetColor::ViewBackground,
        17 => StyleSheetColor::ViewHover,
        18 => StyleSheetColor::ViewFocus,
        19 => StyleSheetColor::ViewHighlightedText,
        20 => StyleSheetColor::ViewPositiveText,
        21 => StyleSheetColor::ViewNeutralText,
        22 => StyleSheetColor::ViewNegativeText,
        23 => StyleSheetColor::TooltipText,
        24 => StyleSheetColor::TooltipBackground,
        25 => StyleSheetColor::TooltipHover,
        26 => StyleSheetColor::TooltipFocus,
        27 => StyleSheetColor::TooltipHighlightedText,
        28 => StyleSheetColor::TooltipPositiveText,
        29 => StyleSheetColor::TooltipNeutralText,
        30 => StyleSheetColor::TooltipNegativeText,
        31 => StyleSheetColor::ComplementaryText,
        32 => StyleSheetColor::ComplementaryBackground,
        33 => StyleSheetColor::ComplementaryHover,
        34 => StyleSheetColor::ComplementaryFocus,
        35 => StyleSheetColor::ComplementaryHighlightedText,
        36 => StyleSheetColor::ComplementaryPositiveText,
        37 => StyleSheetColor::ComplementaryNeutralText,
        38 => StyleSheetColor::ComplementaryNegativeText,
        39 => StyleSheetColor::HeaderText,
        40 => StyleSheetColor::HeaderBackground,
        41 => StyleSheetColor::HeaderHover,
        42 => StyleSheetColor::HeaderFocus,
        43 => StyleSheetColor::HeaderHighlightedText,
        44 => StyleSheetColor::HeaderPositiveText,
        45 => StyleSheetColor::HeaderNeutralText,
        46 => StyleSheetColor::HeaderNegativeText,
        _ => StyleSheetColor::Frame,
    }
}

/// A parsed KDE color scheme: (group, key, color) entries, later entries
/// overriding earlier ones.
#[derive(Debug, Clone)]
pub struct ColorScheme {
    entries: Vec<(ColorGroup, ColorKey, Color)>,
}

/// The map that a list of entries denotes (later entries win).
pub open spec fn entries_map(s: Seq<(ColorGroup, ColorKey, Color)>) -> Map<(ColorGroup, ColorKey), Color>
    decreases s.len(),
{
    if s.len() == 0 {
        Map::empty()
    } else {
        entries_map(s.drop_last()).insert((s.last().0, s.last().1), s.last().2)
    }
}

impl View for ColorScheme {
    type V = Map<(ColorGroup, ColorKey), Color>;

    closed spec fn view(&self) -> Map<(ColorGroup, ColorKey), Color> {
        entries_map(self.entries@)
    }
}

/// The color of `key` found first along the fallback chain `gs`.
pub open spec fn first_in(m: Map<(ColorGroup, ColorKey), Color>, gs: Seq<ColorGroup>, key: ColorKey) -> Option<Color>
    decreases gs.len(),
{
    if gs.len() == 0 {
        None
    } else if m.contains_key((gs[0], key)) {
        Some(m[(gs[0], key)])
    } else {
        first_in(m, gs.drop_first(), key)
    }
}

/// `ColorScheme::get`: the color of `key` with the `KColorScheme` fallback
/// chain of `group`.
pub open spec fn lookup(m: Map<(ColorGroup, ColorKey), Color>, group: ColorGroup, key: ColorKey) -> Option<Color> {
    first_in(m, chain(group), key)
}

/// Each role resolves from its own color set first: a key present in the
/// asked group is what the lookup gives; and a key missing from every set
/// of the fallback chain resolves to nothing.
pub proof fn lemma_own_set_first(m: Map<(ColorGroup, ColorKey), Color>, group: ColorGroup, key: ColorKey)
    ensures
        m.contains_key((group, key)) ==> lookup(m, group, key) == Some(m[(group, key)]),
        (forall|i: int| 0 <= i < chain(group).len() ==> !m.contains_key((#[trigger] chain(group)[i], key)))
            ==> lookup(m, group, key) is None,
{
    if forall|i: int| 0 <= i < chain(group).len() ==> !m.contains_key((#[trigger] chain(group)[i], key)) {
        lemma_first_in_none(m, chain(group), key);
    }
}

/// No group of `gs` holding `key` means nothing is found along `gs`.
proof fn lemma_first_in_none(m: Map<(ColorGroup, ColorKey), Color>, gs: Seq<ColorGroup>, key: ColorKey)
    requires
        forall|i: int| 0 <= i < gs.len() ==> !m.contains_key((#[trigger] gs[i], key)),
    ensures
        first_in(m, gs, key) is None,
    decreases gs.len(),
{
    if gs.len() > 0 {
        assert(!m.contains_key((gs[0], key)));
        let rest = gs.drop_first();
        assert forall|i: int| 0 <= i < rest.len() implies !m.contains_key((#[trigger] rest[i], key)) by {
            assert(rest[i] == gs[i + 1]);
        }
        lemma_first_in_none(m, rest, key);
    }
}

/// The resolved color of a style sheet role
/// (`ImageSetPrivate::namedColor`, Window color set, normal status).
pub open spec fn named(m: Map<(ColorGroup, ColorKey), Color>, c: StyleSheetColor) -> Color
    decreases rank(c),
{
    match c {
        StyleSheetColor::Text => match lookup(m, ColorGroup::Window, ColorKey::Foreground) {
            Some(x) => x,
            None => opaque_color(0, 0, 0),
        },
        StyleSheetColor::Background => match lookup(m, ColorGroup::Window, ColorKey::Background) {
            Some(x) => x,
            None => opaque_color(255, 255, 255),
        },
        StyleSheetColor::Highlight => match lookup(m, ColorGroup::Selection, ColorKey::Background) {
            Some(x) => x,
            None => opaque_color(0, 0, 0),
        },
        StyleSheetColor::HighlightedText => match lookup(m, ColorGroup::Selection, ColorKey::Foreground) {
            Some(x) => x,
            None => opaque_color(255, 255, 255),
        },
        StyleSheetColor::PositiveText => match lookup(m, ColorGroup::Window, ColorKey::PositiveText) {
            Some(x) => x,
            None => named(m, StyleSheetColor::Text),
        },
        StyleSheetColor::NeutralText => match lookup(m, ColorGroup::Window, ColorKey::NeutralText) {
            Some(x) => x,
            None => named(m, StyleSheetColor::Text),
        },
        StyleSheetColor::NegativeText => match lookup(m, ColorGroup::Window, ColorKey::NegativeText) {
            Some(x) => x,
            None => named(m, StyleSheetColor::Text),
        },
        StyleSheetColor::ButtonText => match lookup(m, ColorGroup::Button, ColorKey::Foreground) {
            Some(x) => x,
            None => named(m, StyleSheetColor::Text),
        },
        StyleSheetColor::ButtonBackground => match lookup(m, ColorGroup::Button, ColorKey::Background) {
            Some(x) => x,
            None => named(m, StyleSheetColor::Background),
        },
        StyleSheetColor::ButtonHover => match lookup(m, ColorGroup::Button, ColorKey::DecorationHover) {
            Some(x) => x,
            None => named(m, StyleSheetColor::ButtonText),
        },
        StyleSheetColor::ButtonFocus => match lookup(m, ColorGroup::Button, ColorKey::DecorationFocus) {
            Some(x) => x,
            None => named(m, StyleSheetColor::ButtonHover),
        },
        StyleSheetColor::ButtonHighlightedText => named(m, StyleSheetColor::HighlightedText),
        StyleSheetColor::ButtonPositiveText => match lookup(m, ColorGroup::Button, ColorKey::PositiveText) {
            Some(x) => x,
            None => named(m, StyleSheetColor::ButtonText),
        },
        StyleSheetColor::ButtonNeutralText => match lookup(m, ColorGroup::Button, ColorKey::NeutralText) {
            Some(x) => x,
            None => named(m, StyleSheetColor::ButtonText),
        },
        StyleSheetColor::ButtonNegativeText => match lookup(m, ColorGroup::Button, ColorKey::NegativeText) {
            Some(x) => x,
            None => named(m, StyleSheetColor::ButtonText),
        },
        StyleSheetColor::ViewText => match lookup(m, ColorGroup::View, ColorKey::Foreground) {
            Some(x) => x,
            None => opaque_color(0, 0, 0),
        },
        StyleSheetColor::ViewBackground => match lookup(m, ColorGroup::View, ColorKey::Background) {
            Some(x) => x,
            None => opaque_color(255, 255, 255),
        },
        StyleSheetColor::ViewHover => match lookup(m, ColorGroup::View, ColorKey::DecorationHover) {
            Some(x) => x,
            None => named(m, StyleSheetColor::ViewText),
        },
        StyleSheetColor::ViewFocus => match lookup(m, ColorGroup::View, ColorKey::DecorationFocus) {
            Some(x) => x,
            None => named(m, StyleSheetColor::ViewHover),
        },
        StyleSheetColor::ViewHighlightedText => named(m, StyleSheetColor::HighlightedText),
        StyleSheetColor::ViewPositiveText => match lookup(m, ColorGroup::View, ColorKey::PositiveText) {
            Some(x) => x,
            None => named(m, StyleSheetColor::ViewText),
        },
        StyleSheetColor::ViewNeutralText => match lookup(m, ColorGroup::View, ColorKey::NeutralText) {
            Some(x) => x,
            None => named(m, StyleSheetColor::ViewText),
        },
        StyleSheetColor::ViewNegativeText => match lookup(m, ColorGroup::View, ColorKey::NegativeText) {
            Some(x) => x,
            None => named(m, StyleSheetColor::ViewText),
        },
        StyleSheetColor::TooltipText => match lookup(m, ColorGroup::Tooltip, ColorKey::Foreground) {
            Some(x) => x,
            None => named(m, StyleSheetColor::Text),
        },
        StyleSheetColor::TooltipBackground => match lookup(m, ColorGroup::Tooltip, ColorKey::Background) {
            Some(x) => x,
            None => named(m, StyleSheetColor::Background),
        },
        StyleSheetColor::TooltipHover => match lookup(m, ColorGroup::Tooltip, ColorKey::DecorationHover) {
            Some(x) => x,
            None => named(m, StyleSheetColor::TooltipText),
        },
        StyleSheetColor::TooltipFocus => match lookup(m, ColorGroup::Tooltip, ColorKey::DecorationFocus) {
            Some(x) => x,
            None => named(m, StyleSheetColor::TooltipHover),
        },
        StyleSheetColor::TooltipHighlightedText => named(m, StyleSheetColor::HighlightedText),
        StyleSheetColor::TooltipPositiveText => match lookup(m, ColorGroup::Tooltip, ColorKey::PositiveText) {
            Some(x) => x,
            None => named(m, StyleSheetColor::TooltipText),
        },
        StyleSheetColor::TooltipNeutralText => match lookup(m, ColorGroup::Tooltip, ColorKey::NeutralText) {
            Some(x) => x,
            None => named(m, StyleSheetColor::TooltipText),
        },
        StyleSheetColor::TooltipNegativeText => match lookup(m, ColorGroup::Tooltip, ColorKey::NegativeText) {
            Some(x) => x,
            None => named(m, StyleSheetColor::TooltipText),
        },
        StyleSheetColor::ComplementaryText => match lookup(m, ColorGroup::Complementary, ColorKey::Foreground) {
            Some(x) => x,
            None => named(m, StyleSheetColor::Text),
        },
        StyleSheetColor::ComplementaryBackground => match lookup(m, ColorGroup::Complementary, ColorKey::Background) {
            Some(x) => x,
            None => named(m, StyleSheetColor::Background),
        },
        StyleSheetColor::ComplementaryHover => match lookup(m, ColorGroup::Complementary, ColorKey::DecorationHover) {
            Some(x) => x,
            None => named(m, StyleSheetColor::ComplementaryText),
        },
        StyleSheetColor::ComplementaryFocus => match lookup(m, ColorGroup::Complementary, ColorKey::DecorationFocus) {
            Some(x) => x,
            None => named(m, StyleSheetColor::ComplementaryHover),
        },
        StyleSheetColor::ComplementaryHighlightedText => named(m, StyleSheetColor::HighlightedText),
        StyleSheetColor::ComplementaryPositiveText => match lookup(m, ColorGroup::Complementary, ColorKey::PositiveText) {
            Some(x) => x,
            None => named(m, StyleSheetColor::ComplementaryText),
        },
        StyleSheetColor::ComplementaryNeutralText => match lookup(m, ColorGroup::Complementary, ColorKey::NeutralText) {
            Some(x) => x,
            None => named(m, StyleSheetColor::ComplementaryText),
        },
        StyleSheetColor::ComplementaryNegativeText => match lookup(m, ColorGroup::Complementary, ColorKey::NegativeText) {
            Some(x) => x,
            None => named(m, StyleSheetColor::ComplementaryText),
        },
        StyleSheetColor::HeaderText => match lookup(m, ColorGroup::Header, ColorKey::Foreground) {
            Some(x) => x,
            None => named(m, StyleSheetColor::Text),
        },
        StyleSheetColor::HeaderBackground => match lookup(m, ColorGroup::Header, ColorKey::Background) {
            Some(x) => x,
            None => named(m, StyleSheetColor::Background),
        },
        StyleSheetColor::HeaderHover => match lookup(m, ColorGroup::Header, ColorKey::DecorationHover) {
            Some(x) => x,
            None => named(m, StyleSheetColor::HeaderText),
        },
        StyleSheetColor::HeaderFocus => match lookup(m, ColorGroup::Header, ColorKey::DecorationFocus) {
            Some(x) => x,
            None => named(m, StyleSheetColor::HeaderHover),
        },
        StyleSheetColor::HeaderHighlightedText => named(m, StyleSheetColor::HighlightedText),
        StyleSheetColor::HeaderPositiveText => match lookup(m, ColorGroup::Header, ColorKey::PositiveText) {
            Some(x) => x,
            None => named(m, StyleSheetColor::HeaderText),
        },
        StyleSheetColor::HeaderNeutralText => match lookup(m, ColorGroup::Header, ColorKey::NeutralText) {
            Some(x) => x,
            None => named(m, StyleSheetColor::HeaderText),
        },
        StyleSheetColor::HeaderNegativeText => match lookup(m, ColorGroup::Header, ColorKey::NegativeText) {
            Some(x) => x,
            None => named(m, StyleSheetColor::HeaderText),
        },
        StyleSheetColor::Frame => match lookup(m, ColorGroup::Window, ColorKey::Frame) {
            Some(x) => x,
            None => match lookup(m, ColorGroup::Window, ColorKey::Background) {
                Some(x) => x,
                None => opaque_color(255, 255, 255),
            },
        },
    }
}

/// Whether the accent color drives the entry `p`: the Selection background
/// and the decoration roles of every color set.
pub open spec fn highlight_role(p: (ColorGroup, ColorKey)) -> bool {
    p == (ColorGroup::Selection, ColorKey::Background) || p.1 == ColorKey::DecorationFocus || p.1
        == ColorKey::DecorationHover
}

/// The scheme with the accent color written into every entry it drives.
pub open spec fn accented(m: Map<(ColorGroup, ColorKey), Color>, accent: Color) -> Map<(ColorGroup, ColorKey), Color> {
    m.union_prefer_right(Map::new(|p: (ColorGroup, ColorKey)| highlight_role(p), |p: (ColorGroup, ColorKey)| accent))
}

/// The position of a group in the order in which the accent is applied.
pub open spec fn group_index(g: ColorGroup) -> int {
    match g {
        ColorGroup::Window => 0,
        ColorGroup::View => 1,
        ColorGroup::Button => 2,
        ColorGroup::Tooltip => 3,
        ColorGroup::Complementary => 4,
        ColorGroup::Header => 5,
        ColorGroup::Selection => 6,
    }
}

/// Whether the accent has been written into `p` once the first `i` groups
/// have had their decoration roles set.
pub open spec fn done(p: (ColorGroup, ColorKey), i: int) -> bool {
    p == (ColorGroup::Selection, ColorKey::Background) || ((p.1 == ColorKey::DecorationFocus || p.1
        == ColorKey::DecorationHover) && group_index(p.0) < i)
}

/// A channel darkened toward black by `percent` percent.
pub open spec fn scale_channel(c: u8, percent: u8) -> u8 {
    ((c as int * (100 - percent as int)) / 100) as u8
}

/// A color darkened toward black by `percent` percent (alpha kept).
pub open spec fn scaled(c: Color, percent: u8) -> Color {
    Color { r: scale_channel(c.r, percent), g: scale_channel(c.g, percent), b: scale_channel(c.b, percent), ..c }
}

/// The three colors written into `theme.conf`.
#[derive(Clone, Copy, Debug)]
pub struct ThemeConfColors {
    /// `NormalColor` / `HighlightCandidateColor`
    pub normal: Color,
    /// `HighlightColor`
    pub highlighted: Color,
    /// `HighlightBackgroundColor`
    pub highlight_background: Color,
}

/// One step of parsing: the group being read and the colors so far.
pub struct ParseState {
    /// The group of the current section (`None` outside color groups).
    pub current: Option<ColorGroup>,
    /// The colors read so far.
    pub colors: Map<(ColorGroup, ColorKey), Color>,
}

/// The effect of one trimmed line on the parse: comments and blank lines
/// are skipped, `[...]` opens a section, `key=value` inside a color group
/// records a color. A bad value yields the key name and trimmed value.
pub open spec fn parse_step(st: ParseState, line: Seq<char>) -> Result<ParseState, (Seq<char>, Seq<char>)> {
    if line.len() == 0 || line[0] == '#' || line[0] == ';' {
        Ok(st)
    } else if line[0] == '[' && line.last() == ']' {
        Ok(ParseState { current: parse_group(line.subrange(1, line.len() - 1)), ..st })
    } else {
        match st.current {
            None => Ok(st),
            Some(g) => match split_once(line, '=') {
                None => Ok(st),
                Some((k, v)) => match key_named(trim(k)) {
                    None => Ok(st),
                    Some(key) => {
                        let value = strip_matches(trim(v), '"');
                        if value.len() == 0 {
                            Ok(st)
                        } else {
                            match color_value(trim(value)) {
                                Some(c) => Ok(ParseState { colors: st.colors.insert((g, key), c), ..st }),
                                None => Err((key_text(key), trim(value))),
                            }
                        }
                    },
                },
            },
        }
    }
}

/// The parse after the first `n` lines (stopping at the first bad value).
pub open spec fn parse_lines(ls: Seq<Seq<char>>, n: int) -> Result<ParseState, (Seq<char>, Seq<char>)>
    decreases n,
{
    if n <= 0 {
        Ok(ParseState { current: None, colors: Map::empty() })
    } else {
        match parse_lines(ls, n - 1) {
            Ok(st) => parse_step(st, ls[n - 1]),
            Err(e) => Err(e),
        }
    }
}

/// The scheme that `KConfig` text denotes, or the first bad value.
pub open spec fn parse_text(text: Seq<char>) -> Result<Map<(ColorGroup, ColorKey), Color>, (Seq<char>, Seq<char>)> {
    let ls = trimmed_lines(text);
    match parse_lines(ls, ls.len() as int) {
        Ok(st) => Ok(st.colors),
        Err(e) => Err(e),
    }
}

/// One `.ColorScheme-*{color:#rrggbb;}` rule of the style sheet.
pub open spec fn css_rule(m: Map<(ColorGroup, ColorKey), Color>, c: StyleSheetColor) -> Seq<char> {
    ".ColorScheme-"@ + css_name_of(c) + "{color:"@ + css_string(named(m, c)) + ";}"@
}

/// The rules of the first `n` roles.
pub open spec fn sheet_rules(m: Map<(ColorGroup, ColorKey), Color>, n: int) -> Seq<char>
    decreases n,
{
    if n <= 0 {
        Seq::empty()
    } else {
        sheet_rules(m, n - 1) + css_rule(m, role_at(n - 1))
    }
}

/// The `current-color-scheme` CSS block: one rule per role, in order.
pub open spec fn sheet(m: Map<(ColorGroup, ColorKey), Color>) -> Seq<char> {
    sheet_rules(m, ROLE_COUNT as int)
}

/// Whether a trimmed line opens a section.
pub open spec fn is_header(line: Seq<char>) -> bool {
    line.len() > 0 && line[0] == '[' && line.last() == ']'
}

/// The `ColorScheme=` value of the `[General]` group, scanning the trimmed
/// lines from `i` with `in_general` telling whether `[General]` is open.
pub open spec fn scheme_name_from(ls: Seq<Seq<char>>, i: int, in_general: bool) -> Option<Seq<char>>
    decreases ls.len() - i,
{
    if i < 0 || i >= ls.len() {
        None
    } else if is_header(ls[i]) {
        scheme_name_from(ls, i + 1, ls[i] == "[General]"@)
    } else {
        match split_once(ls[i], '=') {
            Some((k, v)) => if in_general && trim(k) == "ColorScheme"@ && strip_matches(trim(v), '"').len()
                > 0 {
                Some(strip_matches(trim(v), '"'))
            } else {
                scheme_name_from(ls, i + 1, in_general)
            },
            None => scheme_name_from(ls, i + 1, in_general),
        }
    }
}

/// `[General] ColorScheme=` of kdeglobals text (quotes stripped), if set.
pub open spec fn scheme_name(text: Seq<char>) -> Option<Seq<char>> {
    scheme_name_from(trimmed_lines(text), 0, false)
}

// ─────────────────────────────── lemmas ────────────────────────────────

proof fn lemma_entries_push(s: Seq<(ColorGroup, ColorKey, Color)>, e: (ColorGroup, ColorKey, Color))
    ensures
        entries_map(s.push(e)) == entries_map(s).insert((e.0, e.1), e.2),
{
    assert(s.push(e).drop_last() =~= s);
}

/// The accent reaches every decoration role and the Highlight role.
pub proof fn lemma_accent_roles(m: Map<(ColorGroup, ColorKey), Color>, accent: Color)
    ensures
        named(accented(m, accent), StyleSheetColor::ButtonFocus) == accent,
        named(accented(m, accent), StyleSheetColor::ButtonHover) == accent,
        named(accented(m, accent), StyleSheetColor::ViewFocus) == accent,
        named(accented(m, accent), StyleSheetColor::ViewHover) == accent,
        named(accented(m, accent), StyleSheetColor::TooltipFocus) == accent,
        named(accented(m, accent), StyleSheetColor::TooltipHover) == accent,
        named(accented(m, accent), StyleSheetColor::ComplementaryFocus) == accent,
        named(accented(m, accent), StyleSheetColor::ComplementaryHover) == accent,
        named(accented(m, accent), StyleSheetColor::HeaderFocus) == accent,
        named(accented(m, accent), StyleSheetColor::HeaderHover) == accent,
        named(accented(m, accent), StyleSheetColor::Highlight) == accent,
{
    let a = accented(m, accent);
    assert(a.contains_key((ColorGroup::Button, ColorKey::DecorationFocus)));
    assert(a.contains_key((ColorGroup::Button, ColorKey::DecorationHover)));
    assert(a.contains_key((ColorGroup::View, ColorKey::DecorationFocus)));
    assert(a.contains_key((ColorGroup::View, ColorKey::DecorationHover)));
    assert(a.contains_key((ColorGroup::Tooltip, ColorKey::DecorationFocus)));
    assert(a.contains_key((ColorGroup::Tooltip, ColorKey::DecorationHover)));
    assert(a.contains_key((ColorGroup::Complementary, ColorKey::DecorationFocus)));
    assert(a.contains_key((ColorGroup::Complementary, ColorKey::DecorationHover)));
    assert(a.contains_key((ColorGroup::Header, ColorKey::DecorationFocus)));
    assert(a.contains_key((ColorGroup::Header, ColorKey::DecorationHover)));
    assert(a.contains_key((ColorGroup::Selection, ColorKey::Background)));
}

/// Once parsing has failed, later lines do not change the error.
pub proof fn lemma_parse_err_sticks(ls: Seq<Seq<char>>, n: int, m: int)
    requires
        0 <= n <= m,
        parse_lines(ls, n) is Err,
    ensures
        parse_lines(ls, m) == parse_lines(ls, n),
    decreases m - n,
{
    if m > n {
        lemma_parse_err_sticks(ls, n, m - 1);
    }
}

/// The color sets in accent order (see [`group_index`]).
pub open spec fn all_groups() -> Seq<ColorGroup> {
    seq![
        ColorGroup::Window,
        ColorGroup::View,
        ColorGroup::Button,
        ColorGroup::Tooltip,
        ColorGroup::Complementary,
        ColorGroup::Header,
        ColorGroup::Selection,
    ]
}

/// The color keys in declaration order.
pub open spec fn all_keys() -> Seq<ColorKey> {
    seq![
        ColorKey::Background,
        ColorKey::Foreground,
        ColorKey::DecorationFocus,
        ColorKey::DecorationHover,
        ColorKey::Highlight,
        ColorKey::HighlightedText,
        ColorKey::Link,
        ColorKey::Visited,
        ColorKey::PositiveText,
        ColorKey::NeutralText,
        ColorKey::NegativeText,
        ColorKey::Frame,
    ]
}

/// The position of a key in [`all_keys`].
pub open spec fn key_index(k: ColorKey) -> int {
    match k {
        ColorKey::Background => 0,
        ColorKey::Foreground => 1,
        ColorKey::DecorationFocus => 2,
        ColorKey::DecorationHover => 3,
        ColorKey::Highlight => 4,
        ColorKey::HighlightedText => 5,
        ColorKey::Link => 6,
        ColorKey::Visited => 7,
        ColorKey::PositiveText => 8,
        ColorKey::NeutralText => 9,
        ColorKey::NegativeText => 10,
        ColorKey::Frame => 11,
    }
}

/// What a role resolves to once deepened: darkened by `percent` and
/// boosted, for a highlight role; as it was, for any other.
pub open spec fn deepened_as<F: Fn(Color) -> Color>(p: (ColorGroup, ColorKey), c: Color, d: Color, percent: u8, boost: F) -> bool {
    if highlight_role(p) {
        call_ensures(boost, (scaled(c, percent),), d)
    } else {
        d == c
    }
}

/// The prefix of the style sheet roles drawn from a color set (`View`,
/// `Button`, ...; none for the window set, whose roles are unprefixed; the
/// selection set has no roles of its own).
pub open spec fn role_prefix(g: ColorGroup) -> Option<Seq<char>> {
    match g {
        ColorGroup::Window => Some(""@),
        ColorGroup::View => Some("View"@),
        ColorGroup::Button => Some("Button"@),
        ColorGroup::Tooltip => Some("Tooltip"@),
        ColorGroup::Complementary => Some("Complementary"@),
        ColorGroup::Header => Some("Header"@),
        ColorGroup::Selection => None,
    }
}

/// The suffix of the style sheet roles that show a key (`Text` for the
/// foreground, `Hover` and `Focus` for the decorations, the key's own name
/// otherwise).
pub open spec fn role_suffix(k: ColorKey) -> Option<Seq<char>> {
    match k {
        ColorKey::Foreground => Some("Text"@),
        ColorKey::Background => Some("Background"@),
        ColorKey::DecorationFocus => Some("Focus"@),
        ColorKey::DecorationHover => Some("Hover"@),
        ColorKey::PositiveText => Some("PositiveText"@),
        ColorKey::NeutralText => Some("NeutralText"@),
        ColorKey::NegativeText => Some("NegativeText"@),
        ColorKey::Frame => Some("Frame"@),
        _ => None,
    }
}

/// [`lemma_role_reads_own_key`] for the `Window` set.
proof fn lemma_role_reads_own_key_in_window(m: Map<(ColorGroup, ColorKey), Color>, k: ColorKey, c: StyleSheetColor, x: Color)
    requires
        role_prefix(ColorGroup::Window) is Some,
        role_suffix(k) is Some,
        css_name_of(c) == role_prefix(ColorGroup::Window)->Some_0 + role_suffix(k)->Some_0,
        lookup(m, ColorGroup::Window, k) == Some(x),
    ensures
        named(m, c) == x,
{
    lemma_role_signature(c);
    reveal_strlit("");
    assert(css_name_of(c) =~= role_suffix(k)->Some_0);
    match k {
        ColorKey::Foreground => {
            reveal_strlit("Text");
            assert(named(m, c) == x);
        },
        ColorKey::Background => {
            reveal_strlit("Background");
            assert(named(m, c) == x);
        },
        ColorKey::DecorationFocus => {
            reveal_strlit("Focus");
            reveal_strlit("Frame");
            assert(css_signature("Focus"@) == (5int, 'F', ' ', ' '));
            assert(c == StyleSheetColor::Frame);
            assert("Frame"@[1] != "Focus"@[1]);
            assert(css_name_of(c) == "Frame"@);
            assert(css_name_of(c) == "Focus"@);
            assert(false);
        },
        ColorKey::DecorationHover => {
            reveal_strlit("Hover");
            assert(false);
        },
        ColorKey::PositiveText => {
            reveal_strlit("PositiveText");
            assert(named(m, c) == x);
        },
        ColorKey::NeutralText => {
            reveal_strlit("NeutralText");
            assert(named(m, c) == x);
        },
        ColorKey::NegativeText => {
            reveal_strlit("NegativeText");
            assert(named(m, c) == x);
        },
        ColorKey::Frame => {
            reveal_strlit("Frame");
            assert(named(m, c) == x);
        },
        _ => {
            assert(role_suffix(k) is None);
            assert(false);
        },
    }
}

/// [`lemma_role_reads_own_key`] for the `View` set.
proof fn lemma_role_reads_own_key_in_view(m: Map<(ColorGroup, ColorKey), Color>, k: ColorKey, c: StyleSheetColor, x: Color)
    requires
        role_prefix(ColorGroup::View) is Some,
        role_suffix(k) is Some,
        css_name_of(c) == role_prefix(ColorGroup::View)->Some_0 + role_suffix(k)->Some_0,
        lookup(m, ColorGroup::View, k) == Some(x),
    ensures
        named(m, c) == x,
{
    lemma_role_signature(c);
    reveal_strlit("View");
    match k {
        ColorKey::Foreground => {
            reveal_strlit("Text");
            assert(named(m, c) == x);
        },
        ColorKey::Background => {
            reveal_strlit("Background");
            assert(named(m, c) == x);
        },
        ColorKey::DecorationFocus => {
            reveal_strlit("Focus");
            assert(named(m, c) == x);
        },
        ColorKey::DecorationHover => {
            reveal_strlit("Hover");
            assert(named(m, c) == x);
        },
        ColorKey::PositiveText => {
            reveal_strlit("PositiveText");
            assert(named(m, c) == x);
        },
        ColorKey::NeutralText => {
            reveal_strlit("NeutralText");
            assert(named(m, c) == x);
        },
        ColorKey::NegativeText => {
            reveal_strlit("NegativeText");
            assert(named(m, c) == x);
        },
        ColorKey::Frame => {
            reveal_strlit("Frame");
            reveal_strlit("ViewFocus");
            assert(css_signature("View"@ + "Frame"@) == role_signature(StyleSheetColor::ViewFocus));
            assert(c == StyleSheetColor::ViewFocus);
            assert("ViewFocus"@[5] != ("View"@ + "Frame"@)[5]);
            assert(false);
        },
        _ => {
            assert(false);
        },
    }
}

/// [`lemma_role_reads_own_key`] for the `Button` set.
proof fn lemma_role_reads_own_key_in_button(m: Map<(ColorGroup, ColorKey), Color>, k: ColorKey, c: StyleSheetColor, x: Color)
    requires
        role_prefix(ColorGroup::Button) is Some,
        role_suffix(k) is Some,
        css_name_of(c) == role_prefix(ColorGroup::Button)->Some_0 + role_suffix(k)->Some_0,
        lookup(m, ColorGroup::Button, k) == Some(x),
    ensures
        named(m, c) == x,
{
    lemma_role_signature(c);
    reveal_strlit("Button");
    match k {
        ColorKey::Foreground => {
            reveal_strlit("Text");
            assert(named(m, c) == x);
        },
        ColorKey::Background => {
            reveal_strlit("Background");
            assert(named(m, c) == x);
        },
        ColorKey::DecorationFocus => {
            reveal_strlit("Focus");
            assert(named(m, c) == x);
        },
        ColorKey::DecorationHover => {
            reveal_strlit("Hover");
            assert(named(m, c) == x);
        },
        ColorKey::PositiveText => {
            reveal_strlit("PositiveText");
            assert(named(m, c) == x);
        },
        ColorKey::NeutralText => {
            reveal_strlit("NeutralText");
            assert(named(m, c) == x);
        },
        ColorKey::NegativeText => {
            reveal_strlit("NegativeText");
            assert(named(m, c) == x);
        },
        ColorKey::Frame => {
            reveal_strlit("Frame");
            reveal_strlit("ButtonFocus");
            assert(css_signature("Button"@ + "Frame"@) == role_signature(StyleSheetColor::ButtonFocus));
            assert(c == StyleSheetColor::ButtonFocus);
            assert("ButtonFocus"@[7] != ("Button"@ + "Frame"@)[7]);
            assert(false);
        },
        _ => {
            assert(false);
        },
    }
}

/// [`lemma_role_reads_own_key`] for the `Tooltip` set.
proof fn lemma_role_reads_own_key_in_tooltip(m: Map<(ColorGroup, ColorKey), Color>, k: ColorKey, c: StyleSheetColor, x: Color)
    requires
        role_prefix(ColorGroup::Tooltip) is Some,
        role_suffix(k) is Some,
        css_name_of(c) == role_prefix(ColorGroup::Tooltip)->Some_0 + role_suffix(k)->Some_0,
        lookup(m, ColorGroup::Tooltip, k) == Some(x),
    ensures
        named(m, c) == x,
{
    lemma_role_signature(c);
    reveal_strlit("Tooltip");
    match k {
        ColorKey::Foreground => {
            reveal_strlit("Text");
            assert(named(m, c) == x);
        },
        ColorKey::Background => {
            reveal_strlit("Background");
            assert(named(m, c) == x);
        },
        ColorKey::DecorationFocus => {
            reveal_strlit("Focus");
            assert(named(m, c) == x);
        },
        ColorKey::DecorationHover => {
            reveal_strlit("Hover");
            assert(named(m, c) == x);
        },
        ColorKey::PositiveText => {
            reveal_strlit("PositiveText");
            assert(named(m, c) == x);
        },
        ColorKey::NeutralText => {
            reveal_strlit("NeutralText");
            assert(named(m, c) == x);
        },
        ColorKey::NegativeText => {
            reveal_strlit("NegativeText");
            assert(named(m, c) == x);
        },
        ColorKey::Frame => {
            reveal_strlit("Frame");
            reveal_strlit("TooltipFocus");
            assert(css_signature("Tooltip"@ + "Frame"@) == role_signature(StyleSheetColor::TooltipFocus));
            assert(c == StyleSheetColor::TooltipFocus);
            assert("TooltipFocus"@[8] != ("Tooltip"@ + "Frame"@)[8]);
            assert(false);
        },
        _ => {
            assert(false);
        },
    }
}

/// [`lemma_role_reads_own_key`] for the `Complementary` set.
proof fn lemma_role_reads_own_key_in_complementary(m: Map<(ColorGroup, ColorKey), Color>, k: ColorKey, c: StyleSheetColor, x: Color)
    requires
        role_prefix(ColorGroup::Complementary) is Some,
        role_suffix(k) is Some,
        css_name_of(c) == role_prefix(ColorGroup::Complementary)->Some_0 + role_suffix(k)->Some_0,
        lookup(m, ColorGroup::Complementary, k) == Some(x),
    ensures
        named(m, c) == x,
{
    lemma_role_signature(c);
    reveal_strlit("Complementary");
    match k {
        ColorKey::Foreground => {
            reveal_strlit("Text");
            assert(named(m, c) == x);
        },
        ColorKey::Background => {
            reveal_strlit("Background");
            assert(named(m, c) == x);
        },
        ColorKey::DecorationFocus => {
            reveal_strlit("Focus");
            assert(named(m, c) == x);
        },
        ColorKey::DecorationHover => {
            reveal_strlit("Hover");
            assert(named(m, c) == x);
        },
        ColorKey::PositiveText => {
            reveal_strlit("PositiveText");
            assert(named(m, c) == x);
        },
        ColorKey::NeutralText => {
            reveal_strlit("NeutralText");
            assert(named(m, c) == x);
        },
        ColorKey::NegativeText => {
            reveal_strlit("NegativeText");
            assert(named(m, c) == x);
        },
        ColorKey::Frame => {
            reveal_strlit("Frame");
            reveal_strlit("ComplementaryFocus");
            assert(css_signature("Complementary"@ + "Frame"@) == role_signature(StyleSheetColor::ComplementaryFocus));
            assert(c == StyleSheetColor::ComplementaryFocus);
            assert("ComplementaryFocus"@[14] != ("Complementary"@ + "Frame"@)[14]);
            assert(false);
        },
        _ => {
            assert(false);
        },
    }
}

/// [`lemma_role_reads_own_key`] for the `Header` set.
proof fn lemma_role_reads_own_key_in_header(m: Map<(ColorGroup, ColorKey), Color>, k: ColorKey, c: StyleSheetColor, x: Color)
    requires
        role_prefix(ColorGroup::Header) is Some,
        role_suffix(k) is Some,
        css_name_of(c) == role_prefix(ColorGroup::Header)->Some_0 + role_suffix(k)->Some_0,
        lookup(m, ColorGroup::Header, k) == Some(x),
    ensures
        named(m, c) == x,
{
    lemma_role_signature(c);
    reveal_strlit("Header");
    match k {
        ColorKey::Foreground => {
            reveal_strlit("Text");
            assert(named(m, c) == x);
        },
        ColorKey::Background => {
            reveal_strlit("Background");
            assert(named(m, c) == x);
        },
        ColorKey::DecorationFocus => {
            reveal_strlit("Focus");
            assert(named(m, c) == x);
        },
        ColorKey::DecorationHover => {
            reveal_strlit("Hover");
            assert(named(m, c) == x);
        },
        ColorKey::PositiveText => {
            reveal_strlit("PositiveText");
            assert(named(m, c) == x);
        },
        ColorKey::NeutralText => {
            reveal_strlit("NeutralText");
            assert(named(m, c) == x);
        },
        ColorKey::NegativeText => {
            reveal_strlit("NegativeText");
            assert(named(m, c) == x);
        },
        ColorKey::Frame => {
            reveal_strlit("Frame");
            reveal_strlit("HeaderFocus");
            assert(css_signature("Header"@ + "Frame"@) == role_signature(StyleSheetColor::HeaderFocus));
            assert(c == StyleSheetColor::HeaderFocus);
            assert("HeaderFocus"@[7] != ("Header"@ + "Frame"@)[7]);
            assert(false);
        },
        _ => {
            assert(false);
        },
    }
}

/// Each role reads the key it is named after from its own color set first:
/// when the set holds a color for that key, the role (its class name the
/// set's prefix followed by the key's suffix, such as `ViewNegativeText` for
/// the view set's `NegativeText`, or `NegativeText` for the window set's)
/// resolves to exactly that color.
pub proof fn lemma_role_reads_own_key(
    m: Map<(ColorGroup, ColorKey), Color>,
    g: ColorGroup,
    k: ColorKey,
    c: StyleSheetColor,
    x: Color,
)
    requires
        role_prefix(g) is Some,
        role_suffix(k) is Some,
        css_name_of(c) == role_prefix(g)->Some_0 + role_suffix(k)->Some_0,
        lookup(m, g, k) == Some(x),
    ensures
        named(m, c) == x,
{
    match g {
        ColorGroup::Window => lemma_role_reads_own_key_in_window(m, k, c, x),
        ColorGroup::View => lemma_role_reads_own_key_in_view(m, k, c, x),
        ColorGroup::Button => lemma_role_reads_own_key_in_button(m, k, c, x),
        ColorGroup::Tooltip => lemma_role_reads_own_key_in_tooltip(m, k, c, x),
        ColorGroup::Complementary => lemma_role_reads_own_key_in_complementary(m, k, c, x),
        ColorGroup::Header => lemma_role_reads_own_key_in_header(m, k, c, x),
        ColorGroup::Selection => {},
    }
}

/// The selection colors: `Highlight` is the selection set's background and
/// `HighlightedText` its foreground, and every set's `...HighlightedText`
/// role shows that same selection foreground.
pub proof fn lemma_selection_roles(m: Map<(ColorGroup, ColorKey), Color>, g: ColorGroup, c: StyleSheetColor)
    requires
        role_prefix(g) is Some,
        css_name_of(c) == role_prefix(g)->Some_0 + "HighlightedText"@,
    ensures
        named(m, c) == named(m, StyleSheetColor::HighlightedText),
        lookup(m, ColorGroup::Selection, ColorKey::Background) matches Some(x) ==> named(m, StyleSheetColor::Highlight) == x,
        lookup(m, ColorGroup::Selection, ColorKey::Foreground) matches Some(x) ==> named(m, StyleSheetColor::HighlightedText) == x,
{
    reveal_strlit("HighlightedText");
    match g {
        ColorGroup::Window => {
            reveal_strlit("");
            reveal_strlit("HighlightedText");
            assert(css_name_of(StyleSheetColor::HighlightedText) =~= ""@ + "HighlightedText"@);
            lemma_css_names_distinct(c, StyleSheetColor::HighlightedText);
        },
        ColorGroup::View => {
            reveal_strlit("View");
            reveal_strlit("ViewHighlightedText");
            assert(css_name_of(StyleSheetColor::ViewHighlightedText) =~= "View"@ + "HighlightedText"@);
            lemma_css_names_distinct(c, StyleSheetColor::ViewHighlightedText);
        },
        ColorGroup::Button => {
            reveal_strlit("Button");
            reveal_strlit("ButtonHighlightedText");
            assert(css_name_of(StyleSheetColor::ButtonHighlightedText) =~= "Button"@ + "HighlightedText"@);
            lemma_css_names_distinct(c, StyleSheetColor::ButtonHighlightedText);
        },
        ColorGroup::Tooltip => {
            reveal_strlit("Tooltip");
            reveal_strlit("TooltipHighlightedText");
            assert(css_name_of(StyleSheetColor::TooltipHighlightedText) =~= "Tooltip"@ + "HighlightedText"@);
            lemma_css_names_distinct(c, StyleSheetColor::TooltipHighlightedText);
        },
        ColorGroup::Complementary => {
            reveal_strlit("Complementary");
            reveal_strlit("ComplementaryHighlightedText");
            assert(css_name_of(StyleSheetColor::ComplementaryHighlightedText) =~= "Complementary"@ + "HighlightedText"@);
            lemma_css_names_distinct(c, StyleSheetColor::ComplementaryHighlightedText);
        },
        ColorGroup::Header => {
            reveal_strlit("Header");
            reveal_strlit("HeaderHighlightedText");
            assert(css_name_of(StyleSheetColor::HeaderHighlightedText) =~= "Header"@ + "HighlightedText"@);
            lemma_css_names_distinct(c, StyleSheetColor::HeaderHighlightedText);
        },
        ColorGroup::Selection => {},
    }
}

/// The suffix of the role that a role shows when its own key is missing:
/// the set's `Text` role for the positive, neutral and negative text and
/// for the hover decoration, the set's `Hover` role for the focus one.
pub open spec fn fallback_suffix(k: ColorKey) -> Option<Seq<char>> {
    match k {
        ColorKey::PositiveText => Some("Text"@),
        ColorKey::NeutralText => Some("Text"@),
        ColorKey::NegativeText => Some("Text"@),
        ColorKey::DecorationHover => Some("Text"@),
        ColorKey::DecorationFocus => Some("Hover"@),
        _ => None,
    }
}

/// [`lemma_role_falls_back`] for the `Window` set.
proof fn lemma_role_falls_back_in_window(m: Map<(ColorGroup, ColorKey), Color>, k: ColorKey, c: StyleSheetColor, c2: StyleSheetColor)
    requires
        role_prefix(ColorGroup::Window) is Some,
        role_suffix(k) is Some,
        fallback_suffix(k) is Some,
        css_name_of(c) == role_prefix(ColorGroup::Window)->Some_0 + role_suffix(k)->Some_0,
        css_name_of(c2) == role_prefix(ColorGroup::Window)->Some_0 + fallback_suffix(k)->Some_0,
        lookup(m, ColorGroup::Window, k) is None,
    ensures
        named(m, c) == named(m, c2),
{
    reveal_strlit("");
    match k {
        ColorKey::PositiveText => {
            reveal_strlit("PositiveText");
            reveal_strlit("Text");
            reveal_strlit("PositiveText");
            reveal_strlit("Text");
            assert(css_name_of(StyleSheetColor::PositiveText) =~= ""@ + "PositiveText"@);
            lemma_css_names_distinct(c, StyleSheetColor::PositiveText);
            assert(css_name_of(StyleSheetColor::Text) =~= ""@ + "Text"@);
            lemma_css_names_distinct(c2, StyleSheetColor::Text);
        },
        ColorKey::NeutralText => {
            reveal_strlit("NeutralText");
            reveal_strlit("Text");
            reveal_strlit("NeutralText");
            reveal_strlit("Text");
            assert(css_name_of(StyleSheetColor::NeutralText) =~= ""@ + "NeutralText"@);
            lemma_css_names_distinct(c, StyleSheetColor::NeutralText);
            assert(css_name_of(StyleSheetColor::Text) =~= ""@ + "Text"@);
            lemma_css_names_distinct(c2, StyleSheetColor::Text);
        },
        ColorKey::NegativeText => {
            reveal_strlit("NegativeText");
            reveal_strlit("Text");
            reveal_strlit("NegativeText");
            reveal_strlit("Text");
            assert(css_name_of(StyleSheetColor::NegativeText) =~= ""@ + "NegativeText"@);
            lemma_css_names_distinct(c, StyleSheetColor::NegativeText);
            assert(css_name_of(StyleSheetColor::Text) =~= ""@ + "Text"@);
            lemma_css_names_distinct(c2, StyleSheetColor::Text);
        },
        ColorKey::DecorationHover => {
            reveal_strlit("Hover");
            reveal_strlit("Text");
            assert(css_name_of(c) =~= "Hover"@);
            assert(css_signature("Hover"@) == (5int, 'H', ' ', ' '));
            lemma_role_signature(c);
            assert(false);
        },
        ColorKey::DecorationFocus => {
            reveal_strlit("Focus");
            reveal_strlit("Hover");
            reveal_strlit("Frame");
            assert(css_name_of(c) =~= "Focus"@);
            lemma_role_signature(c);
            assert(css_signature("Focus"@) == (5int, 'F', ' ', ' '));
            assert(c == StyleSheetColor::Frame);
            assert("Frame"@[1] != "Focus"@[1]);
            assert(css_name_of(c) == "Frame"@);
            assert(false);
        },
        _ => {},
    }
}

/// [`lemma_role_falls_back`] for the `View` set.
proof fn lemma_role_falls_back_in_view(m: Map<(ColorGroup, ColorKey), Color>, k: ColorKey, c: StyleSheetColor, c2: StyleSheetColor)
    requires
        role_prefix(ColorGroup::View) is Some,
        role_suffix(k) is Some,
        fallback_suffix(k) is Some,
        css_name_of(c) == role_prefix(ColorGroup::View)->Some_0 + role_suffix(k)->Some_0,
        css_name_of(c2) == role_prefix(ColorGroup::View)->Some_0 + fallback_suffix(k)->Some_0,
        lookup(m, ColorGroup::View, k) is None,
    ensures
        named(m, c) == named(m, c2),
{
    reveal_strlit("View");
    match k {
        ColorKey::PositiveText => {
            reveal_strlit("PositiveText");
            reveal_strlit("Text");
            reveal_strlit("ViewPositiveText");
            reveal_strlit("ViewText");
            assert(css_name_of(StyleSheetColor::ViewPositiveText) =~= "View"@ + "PositiveText"@);
            lemma_css_names_distinct(c, StyleSheetColor::ViewPositiveText);
            assert(css_name_of(StyleSheetColor::ViewText) =~= "View"@ + "Text"@);
            lemma_css_names_distinct(c2, StyleSheetColor::ViewText);
        },
        ColorKey::NeutralText => {
            reveal_strlit("NeutralText");
            reveal_strlit("Text");
            reveal_strlit("ViewNeutralText");
            reveal_strlit("ViewText");
            assert(css_name_of(StyleSheetColor::ViewNeutralText) =~= "View"@ + "NeutralText"@);
            lemma_css_names_distinct(c, StyleSheetColor::ViewNeutralText);
            assert(css_name_of(StyleSheetColor::ViewText) =~= "View"@ + "Text"@);
            lemma_css_names_distinct(c2, StyleSheetColor::ViewText);
        },
        ColorKey::NegativeText => {
            reveal_strlit("NegativeText");
            reveal_strlit("Text");
            reveal_strlit("ViewNegativeText");
            reveal_strlit("ViewText");
            assert(css_name_of(StyleSheetColor::ViewNegativeText) =~= "View"@ + "NegativeText"@);
            lemma_css_names_distinct(c, StyleSheetColor::ViewNegativeText);
            assert(css_name_of(StyleSheetColor::ViewText) =~= "View"@ + "Text"@);
            lemma_css_names_distinct(c2, StyleSheetColor::ViewText);
        },
        ColorKey::DecorationHover => {
            reveal_strlit("Hover");
            reveal_strlit("Text");
            reveal_strlit("ViewHover");
            reveal_strlit("ViewText");
            assert(css_name_of(StyleSheetColor::ViewHover) =~= "View"@ + "Hover"@);
            lemma_css_names_distinct(c, StyleSheetColor::ViewHover);
            assert(css_name_of(StyleSheetColor::ViewText) =~= "View"@ + "Text"@);
            lemma_css_names_distinct(c2, StyleSheetColor::ViewText);
        },
        ColorKey::DecorationFocus => {
            reveal_strlit("Focus");
            reveal_strlit("Hover");
            reveal_strlit("ViewFocus");
            reveal_strlit("ViewHover");
            assert(css_name_of(StyleSheetColor::ViewFocus) =~= "View"@ + "Focus"@);
            lemma_css_names_distinct(c, StyleSheetColor::ViewFocus);
            assert(css_name_of(StyleSheetColor::ViewHover) =~= "View"@ + "Hover"@);
            lemma_css_names_distinct(c2, StyleSheetColor::ViewHover);
        },
        _ => {},
    }
}

/// [`lemma_role_falls_back`] for the `Button` set.
proof fn lemma_role_falls_back_in_button(m: Map<(ColorGroup, ColorKey), Color>, k: ColorKey, c: StyleSheetColor, c2: StyleSheetColor)
    requires
        role_prefix(ColorGroup::Button) is Some,
        role_suffix(k) is Some,
        fallback_suffix(k) is Some,
        css_name_of(c) == role_prefix(ColorGroup::Button)->Some_0 + role_suffix(k)->Some_0,
        css_name_of(c2) == role_prefix(ColorGroup::Button)->Some_0 + fallback_suffix(k)->Some_0,
        lookup(m, ColorGroup::Button, k) is None,
    ensures
        named(m, c) == named(m, c2),
{
    reveal_strlit("Button");
    match k {
        ColorKey::PositiveText => {
            reveal_strlit("PositiveText");
            reveal_strlit("Text");
            reveal_strlit("ButtonPositiveText");
            reveal_strlit("ButtonText");
            assert(css_name_of(StyleSheetColor::ButtonPositiveText) =~= "Button"@ + "PositiveText"@);
            lemma_css_names_distinct(c, StyleSheetColor::ButtonPositiveText);
            assert(css_name_of(StyleSheetColor::ButtonText) =~= "Button"@ + "Text"@);
            lemma_css_names_distinct(c2, StyleSheetColor::ButtonText);
        },
        ColorKey::NeutralText => {
            reveal_strlit("NeutralText");
            reveal_strlit("Text");
            reveal_strlit("ButtonNeutralText");
            reveal_strlit("ButtonText");
            assert(css_name_of(StyleSheetColor::ButtonNeutralText) =~= "Button"@ + "NeutralText"@);
            lemma_css_names_distinct(c, StyleSheetColor::ButtonNeutralText);
            assert(css_name_of(StyleSheetColor::ButtonText) =~= "Button"@ + "Text"@);
            lemma_css_names_distinct(c2, StyleSheetColor::ButtonText);
        },
        ColorKey::NegativeText => {
            reveal_strlit("NegativeText");
            reveal_strlit("Text");
            reveal_strlit("ButtonNegativeText");
            reveal_strlit("ButtonText");
            assert(css_name_of(StyleSheetColor::ButtonNegativeText) =~= "Button"@ + "NegativeText"@);
            lemma_css_names_distinct(c, StyleSheetColor::ButtonNegativeText);
            assert(css_name_of(StyleSheetColor::ButtonText) =~= "Button"@ + "Text"@);
            lemma_css_names_distinct(c2, StyleSheetColor::ButtonText);
        },
        ColorKey::DecorationHover => {
            reveal_strlit("Hover");
            reveal_strlit("Text");
            reveal_strlit("ButtonHover");
            reveal_strlit("ButtonText");
            assert(css_name_of(StyleSheetColor::ButtonHover) =~= "Button"@ + "Hover"@);
            lemma_css_names_distinct(c, StyleSheetColor::ButtonHover);
            assert(css_name_of(StyleSheetColor::ButtonText) =~= "Button"@ + "Text"@);
            lemma_css_names_distinct(c2, StyleSheetColor::ButtonText);
        },
        ColorKey::DecorationFocus => {
            reveal_strlit("Focus");
            reveal_strlit("Hover");
            reveal_strlit("ButtonFocus");
            reveal_strlit("ButtonHover");
            assert(css_name_of(StyleSheetColor::ButtonFocus) =~= "Button"@ + "Focus"@);
            lemma_css_names_distinct(c, StyleSheetColor::ButtonFocus);
            assert(css_name_of(StyleSheetColor::ButtonHover) =~= "Button"@ + "Hover"@);
            lemma_css_names_distinct(c2, StyleSheetColor::ButtonHover);
        },
        _ => {},
    }
}

/// [`lemma_role_falls_back`] for the `Tooltip` set.
proof fn lemma_role_falls_back_in_tooltip(m: Map<(ColorGroup, ColorKey), Color>, k: ColorKey, c: StyleSheetColor, c2: StyleSheetColor)
    requires
        role_prefix(ColorGroup::Tooltip) is Some,
        role_suffix(k) is Some,
        fallback_suffix(k) is Some,
        css_name_of(c) == role_prefix(ColorGroup::Tooltip)->Some_0 + role_suffix(k)->Some_0,
        css_name_of(c2) == role_prefix(ColorGroup::Tooltip)->Some_0 + fallback_suffix(k)->Some_0,
        lookup(m, ColorGroup::Tooltip, k) is None,
    ensures
        named(m, c) == named(m, c2),
{
    reveal_strlit("Tooltip");
    match k {
        ColorKey::PositiveText => {
            reveal_strlit("PositiveText");
            reveal_strlit("Text");
            reveal_strlit("TooltipPositiveText");
            reveal_strlit("TooltipText");
            assert(css_name_of(StyleSheetColor::TooltipPositiveText) =~= "Tooltip"@ + "PositiveText"@);
            lemma_css_names_distinct(c, StyleSheetColor::TooltipPositiveText);
            assert(css_name_of(StyleSheetColor::TooltipText) =~= "Tooltip"@ + "Text"@);
            lemma_css_names_distinct(c2, StyleSheetColor::TooltipText);
        },
        ColorKey::NeutralText => {
            reveal_strlit("NeutralText");
            reveal_strlit("Text");
            reveal_strlit("TooltipNeutralText");
            reveal_strlit("TooltipText");
            assert(css_name_of(StyleSheetColor::TooltipNeutralText) =~= "Tooltip"@ + "NeutralText"@);
            lemma_css_names_distinct(c, StyleSheetColor::TooltipNeutralText);
            assert(css_name_of(StyleSheetColor::TooltipText) =~= "Tooltip"@ + "Text"@);
            lemma_css_names_distinct(c2, StyleSheetColor::TooltipText);
        },
        ColorKey::NegativeText => {
            reveal_strlit("NegativeText");
            reveal_strlit("Text");
            reveal_strlit("TooltipNegativeText");
            reveal_strlit("TooltipText");
            assert(css_name_of(StyleSheetColor::TooltipNegativeText) =~= "Tooltip"@ + "NegativeText"@);
            lemma_css_names_distinct(c, StyleSheetColor::TooltipNegativeText);
            assert(css_name_of(StyleSheetColor::TooltipText) =~= "Tooltip"@ + "Text"@);
            lemma_css_names_distinct(c2, StyleSheetColor::TooltipText);
        },
        ColorKey::DecorationHover => {
            reveal_strlit("Hover");
            reveal_strlit("Text");
            reveal_strlit("TooltipHover");
            reveal_strlit("TooltipText");
            assert(css_name_of(StyleSheetColor::TooltipHover) =~= "Tooltip"@ + "Hover"@);
            lemma_css_names_distinct(c, StyleSheetColor::TooltipHover);
            assert(css_name_of(StyleSheetColor::TooltipText) =~= "Tooltip"@ + "Text"@);
            lemma_css_names_distinct(c2, StyleSheetColor::TooltipText);
        },
        ColorKey::DecorationFocus => {
            reveal_strlit("Focus");
            reveal_strlit("Hover");
            reveal_strlit("TooltipFocus");
            reveal_strlit("TooltipHover");
            assert(css_name_of(StyleSheetColor::TooltipFocus) =~= "Tooltip"@ + "Focus"@);
            lemma_css_names_distinct(c, StyleSheetColor::TooltipFocus);
            assert(css_name_of(StyleSheetColor::TooltipHover) =~= "Tooltip"@ + "Hover"@);
            lemma_css_names_distinct(c2, StyleSheetColor::TooltipHover);
        },
        _ => {},
    }
}

/// [`lemma_role_falls_back`] for the `Complementary` set.
proof fn lemma_role_falls_back_in_complementary(m: Map<(ColorGroup, ColorKey), Color>, k: ColorKey, c: StyleSheetColor, c2: StyleSheetColor)
    requires
        role_prefix(ColorGroup::Complementary) is Some,
        role_suffix(k) is Some,
        fallback_suffix(k) is Some,
        css_name_of(c) == role_prefix(ColorGroup::Complementary)->Some_0 + role_suffix(k)->Some_0,
        css_name_of(c2) == role_prefix(ColorGroup::Complementary)->Some_0 + fallback_suffix(k)->Some_0,
        lookup(m, ColorGroup::Complementary, k) is None,
    ensures
        named(m, c) == named(m, c2),
{
    reveal_strlit("Complementary");
    match k {
        ColorKey::PositiveText => {
            reveal_strlit("PositiveText");
            reveal_strlit("Text");
            reveal_strlit("ComplementaryPositiveText");
            reveal_strlit("ComplementaryText");
            assert(css_name_of(StyleSheetColor::ComplementaryPositiveText) =~= "Complementary"@ + "PositiveText"@);
            lemma_css_names_distinct(c, StyleSheetColor::ComplementaryPositiveText);
            assert(css_name_of(StyleSheetColor::ComplementaryText) =~= "Complementary"@ + "Text"@);
            lemma_css_names_distinct(c2, StyleSheetColor::ComplementaryText);
        },
        ColorKey::NeutralText => {
            reveal_strlit("NeutralText");
            reveal_strlit("Text");
            reveal_strlit("ComplementaryNeutralText");
            reveal_strlit("ComplementaryText");
            assert(css_name_of(StyleSheetColor::ComplementaryNeutralText) =~= "Complementary"@ + "NeutralText"@);
            lemma_css_names_distinct(c, StyleSheetColor::ComplementaryNeutralText);
            assert(css_name_of(StyleSheetColor::ComplementaryText) =~= "Complementary"@ + "Text"@);
            lemma_css_names_distinct(c2, StyleSheetColor::ComplementaryText);
        },
        ColorKey::NegativeText => {
            reveal_strlit("NegativeText");
            reveal_strlit("Text");
            reveal_strlit("ComplementaryNegativeText");
            reveal_strlit("ComplementaryText");
            assert(css_name_of(StyleSheetColor::ComplementaryNegativeText) =~= "Complementary"@ + "NegativeText"@);
            lemma_css_names_distinct(c, StyleSheetColor::ComplementaryNegativeText);
            assert(css_name_of(StyleSheetColor::ComplementaryText) =~= "Complementary"@ + "Text"@);
            lemma_css_names_distinct(c2, StyleSheetColor::ComplementaryText);
        },
        ColorKey::DecorationHover => {
            reveal_strlit("Hover");
            reveal_strlit("Text");
            reveal_strlit("ComplementaryHover");
            reveal_strlit("ComplementaryText");
            assert(css_name_of(StyleSheetColor::ComplementaryHover) =~= "Complementary"@ + "Hover"@);
            lemma_css_names_distinct(c, StyleSheetColor::ComplementaryHover);
            assert(css_name_of(StyleSheetColor::ComplementaryText) =~= "Complementary"@ + "Text"@);
            lemma_css_names_distinct(c2, StyleSheetColor::ComplementaryText);
        },
        ColorKey::DecorationFocus => {
            reveal_strlit("Focus");
            reveal_strlit("Hover");
            reveal_strlit("ComplementaryFocus");
            reveal_strlit("ComplementaryHover");
            assert(css_name_of(StyleSheetColor::ComplementaryFocus) =~= "Complementary"@ + "Focus"@);
            lemma_css_names_distinct(c, StyleSheetColor::ComplementaryFocus);
            assert(css_name_of(StyleSheetColor::ComplementaryHover) =~= "Complementary"@ + "Hover"@);
            lemma_css_names_distinct(c2, StyleSheetColor::ComplementaryHover);
        },
        _ => {},
    }
}

/// [`lemma_role_falls_back`] for the `Header` set.
proof fn lemma_role_falls_back_in_header(m: Map<(ColorGroup, ColorKey), Color>, k: ColorKey, c: StyleSheetColor, c2: StyleSheetColor)
    requires
        role_prefix(ColorGroup::Header) is Some,
        role_suffix(k) is Some,
        fallback_suffix(k) is Some,
        css_name_of(c) == role_prefix(ColorGroup::Header)->Some_0 + role_suffix(k)->Some_0,
        css_name_of(c2) == role_prefix(ColorGroup::Header)->Some_0 + fallback_suffix(k)->Some_0,
        lookup(m, ColorGroup::Header, k) is None,
    ensures
        named(m, c) == named(m, c2),
{
    reveal_strlit("Header");
    match k {
        ColorKey::PositiveText => {
            reveal_strlit("PositiveText");
            reveal_strlit("Text");
            reveal_strlit("HeaderPositiveText");
            reveal_strlit("HeaderText");
            assert(css_name_of(StyleSheetColor::HeaderPositiveText) =~= "Header"@ + "PositiveText"@);
            lemma_css_names_distinct(c, StyleSheetColor::HeaderPositiveText);
            assert(css_name_of(StyleSheetColor::HeaderText) =~= "Header"@ + "Text"@);
            lemma_css_names_distinct(c2, StyleSheetColor::HeaderText);
        },
        ColorKey::NeutralText => {
            reveal_strlit("NeutralText");
            reveal_strlit("Text");
            reveal_strlit("HeaderNeutralText");
            reveal_strlit("HeaderText");
            assert(css_name_of(StyleSheetColor::HeaderNeutralText) =~= "Header"@ + "NeutralText"@);
            lemma_css_names_distinct(c, StyleSheetColor::HeaderNeutralText);
            assert(css_name_of(StyleSheetColor::HeaderText) =~= "Header"@ + "Text"@);
            lemma_css_names_distinct(c2, StyleSheetColor::HeaderText);
        },
        ColorKey::NegativeText => {
            reveal_strlit("NegativeText");
            reveal_strlit("Text");
            reveal_strlit("HeaderNegativeText");
            reveal_strlit("HeaderText");
            assert(css_name_of(StyleSheetColor::HeaderNegativeText) =~= "Header"@ + "NegativeText"@);
            lemma_css_names_distinct(c, StyleSheetColor::HeaderNegativeText);
            assert(css_name_of(StyleSheetColor::HeaderText) =~= "Header"@ + "Text"@);
            lemma_css_names_distinct(c2, StyleSheetColor::HeaderText);
        },
        ColorKey::DecorationHover => {
            reveal_strlit("Hover");
            reveal_strlit("Text");
            reveal_strlit("HeaderHover");
            reveal_strlit("HeaderText");
            assert(css_name_of(StyleSheetColor::HeaderHover) =~= "Header"@ + "Hover"@);
            lemma_css_names_distinct(c, StyleSheetColor::HeaderHover);
            assert(css_name_of(StyleSheetColor::HeaderText) =~= "Header"@ + "Text"@);
            lemma_css_names_distinct(c2, StyleSheetColor::HeaderText);
        },
        ColorKey::DecorationFocus => {
            reveal_strlit("Focus");
            reveal_strlit("Hover");
            reveal_strlit("HeaderFocus");
            reveal_strlit("HeaderHover");
            assert(css_name_of(StyleSheetColor::HeaderFocus) =~= "Header"@ + "Focus"@);
            lemma_css_names_distinct(c, StyleSheetColor::HeaderFocus);
            assert(css_name_of(StyleSheetColor::HeaderHover) =~= "Header"@ + "Hover"@);
            lemma_css_names_distinct(c2, StyleSheetColor::HeaderHover);
        },
        _ => {},
    }
}

/// A role whose key is missing from its own color set shows its fallback
/// role of the same set: `ViewNegativeText` without the view set's
/// `NegativeText` shows `ViewText`, `ButtonFocus` without the button set's
/// `DecorationFocus` shows `ButtonHover`, and so on.
pub proof fn lemma_role_falls_back(
    m: Map<(ColorGroup, ColorKey), Color>,
    g: ColorGroup,
    k: ColorKey,
    c: StyleSheetColor,
    c2: StyleSheetColor,
)
    requires
        role_prefix(g) is Some,
        role_suffix(k) is Some,
        fallback_suffix(k) is Some,
        css_name_of(c) == role_prefix(g)->Some_0 + role_suffix(k)->Some_0,
        css_name_of(c2) == role_prefix(g)->Some_0 + fallback_suffix(k)->Some_0,
        lookup(m, g, k) is None,
    ensures
        named(m, c) == named(m, c2),
{
    match g {
        ColorGroup::Window => lemma_role_falls_back_in_window(m, k, c, c2),
        ColorGroup::View => lemma_role_falls_back_in_view(m, k, c, c2),
        ColorGroup::Button => lemma_role_falls_back_in_button(m, k, c, c2),
        ColorGroup::Tooltip => lemma_role_falls_back_in_tooltip(m, k, c, c2),
        ColorGroup::Complementary => lemma_role_falls_back_in_complementary(m, k, c, c2),
        ColorGroup::Header => lemma_role_falls_back_in_header(m, k, c, c2),
        ColorGroup::Selection => {},
    }
}

/// The style sheet roles that deepening darkens: `Highlight` and the
/// decoration (`*Focus`, `*Hover`) roles.
pub open spec fn deepened_role(c: StyleSheetColor) -> bool {
    match c {
        StyleSheetColor::Highlight | StyleSheetColor::ButtonHover | StyleSheetColor::ButtonFocus
        | StyleSheetColor::ViewHover | StyleSheetColor::ViewFocus | StyleSheetColor::TooltipHover
        | StyleSheetColor::TooltipFocus | StyleSheetColor::ComplementaryHover
        | StyleSheetColor::ComplementaryFocus | StyleSheetColor::HeaderHover
        | StyleSheetColor::HeaderFocus => true,
        _ => false,
    }
}

/// Nothing found along `gs` means no group of `gs` holds `key`.
proof fn lemma_first_in_none_all(m: Map<(ColorGroup, ColorKey), Color>, gs: Seq<ColorGroup>, key: ColorKey)
    requires
        first_in(m, gs, key) is None,
    ensures
        forall|i: int| 0 <= i < gs.len() ==> !m.contains_key((#[trigger] gs[i], key)),
    decreases gs.len(),
{
    if gs.len() > 0 {
        let rest = gs.drop_first();
        lemma_first_in_none_all(m, rest, key);
        assert forall|i: int| 0 <= i < gs.len() implies !m.contains_key((#[trigger] gs[i], key)) by {
            if i > 0 {
                assert(gs[i] == rest[i - 1]);
            }
        }
    }
}

/// Every set on the fallback chain of a set on `g`'s chain is on `g`'s
/// chain too.
proof fn lemma_chain_closed(g: ColorGroup, i: int, j: int)
    requires
        0 <= i < chain(g).len(),
        0 <= j < chain(chain(g)[i]).len(),
    ensures
        chain(g).contains(chain(chain(g)[i])[j]),
{
    let x = chain(chain(g)[i])[j];
    match x {
        ColorGroup::Window => {
            assert(chain(g).len() >= 3);
            if chain(g)[0] == x {} else if chain(g)[1] == x {} else if chain(g)[2] == x {} else { assert(chain(g)[3] == x); }
        },
        _ => {
            if chain(g)[0] == x {} else if chain(g)[1] == x {} else if chain(g)[2] == x {} else { assert(chain(g)[3] == x); }
        },
    }
    assert(exists|k: int| 0 <= k < chain(g).len() && chain(g)[k] == x);
}

/// A role that resolves to nothing leaves every set of its fallback chain
/// without the key, whatever set that chain starts from.
proof fn lemma_none_along_chain(m: Map<(ColorGroup, ColorKey), Color>, g: ColorGroup, key: ColorKey, i: int)
    requires
        lookup(m, g, key) is None,
        0 <= i < chain(g).len(),
    ensures
        lookup(m, chain(g)[i], key) is None,
{
    lemma_first_in_none_all(m, chain(g), key);
    let h = chain(g)[i];
    assert forall|j: int| 0 <= j < chain(h).len() implies !m.contains_key((#[trigger] chain(h)[j], key)) by {
        lemma_chain_closed(g, i, j);
        let k = choose|k: int| 0 <= k < chain(g).len() && chain(g)[k] == chain(h)[j];
        assert(!m.contains_key((chain(g)[k], key)));
    }
    lemma_first_in_none(m, chain(h), key);
}

/// A scheme holding exactly the resolved roles of `m` (each deepened as
/// [`deepened_as`] says) resolves every role as `m` does, deepened.
proof fn lemma_pinned_lookup<F: Fn(Color) -> Color>(
    m: Map<(ColorGroup, ColorKey), Color>,
    d: Map<(ColorGroup, ColorKey), Color>,
    percent: u8,
    boost: F,
    g: ColorGroup,
    key: ColorKey,
)
    requires
        forall|p: (ColorGroup, ColorKey)| #[trigger] d.contains_key(p) <==> lookup(m, p.0, p.1) is Some,
        forall|p: (ColorGroup, ColorKey)| #[trigger] d.contains_key(p) ==> deepened_as(p, lookup(m, p.0, p.1)->0, d[p], percent, boost),
    ensures
        match lookup(m, g, key) {
            None => lookup(d, g, key) is None,
            Some(c) => lookup(d, g, key) matches Some(x) && deepened_as((g, key), c, x, percent, boost),
        },
{
    match lookup(m, g, key) {
        Some(c) => {
            assert(d.contains_key((g, key)));
            lemma_own_set_first(d, g, key);
        },
        None => {
            assert forall|i: int| 0 <= i < chain(g).len() implies !d.contains_key((#[trigger] chain(g)[i], key)) by {
                lemma_none_along_chain(m, g, key, i);
            }
            lemma_first_in_none(d, chain(g), key);
        },
    }
}

/// Deepening darkens only the highlight-driven roles: for two schemes that
/// resolve every other (set, key) role alike, every style sheet role but
/// `Highlight` and the `*Focus`/`*Hover` ones comes out the same, so text,
/// panel backgrounds and highlighted text keep their colors.
pub proof fn lemma_deepening_keeps_other_roles(
    m1: Map<(ColorGroup, ColorKey), Color>,
    m2: Map<(ColorGroup, ColorKey), Color>,
    c: StyleSheetColor,
)
    requires
        forall|g: ColorGroup, k: ColorKey|
            !highlight_role((g, k)) ==> #[trigger] lookup(m1, g, k) == lookup(m2, g, k),
        !deepened_role(c),
    ensures
        named(m1, c) == named(m2, c),
{
    let w = ColorGroup::Window;
    assert(lookup(m1, w, ColorKey::Foreground) == lookup(m2, w, ColorKey::Foreground));
    assert(lookup(m1, w, ColorKey::Background) == lookup(m2, w, ColorKey::Background));
    assert(lookup(m1, ColorGroup::Selection, ColorKey::Foreground) == lookup(m2, ColorGroup::Selection, ColorKey::Foreground));
    assert(named(m1, StyleSheetColor::Text) == named(m2, StyleSheetColor::Text));
    assert(named(m1, StyleSheetColor::Background) == named(m2, StyleSheetColor::Background));
    assert(named(m1, StyleSheetColor::HighlightedText) == named(m2, StyleSheetColor::HighlightedText));
    assert(lookup(m1, ColorGroup::Button, ColorKey::Foreground) == lookup(m2, ColorGroup::Button, ColorKey::Foreground));
    assert(lookup(m1, ColorGroup::View, ColorKey::Foreground) == lookup(m2, ColorGroup::View, ColorKey::Foreground));
    assert(lookup(m1, ColorGroup::Tooltip, ColorKey::Foreground) == lookup(m2, ColorGroup::Tooltip, ColorKey::Foreground));
    assert(lookup(m1, ColorGroup::Complementary, ColorKey::Foreground) == lookup(m2, ColorGroup::Complementary, ColorKey::Foreground));
    assert(lookup(m1, ColorGroup::Header, ColorKey::Foreground) == lookup(m2, ColorGroup::Header, ColorKey::Foreground));
    assert(named(m1, StyleSheetColor::ButtonText) == named(m2, StyleSheetColor::ButtonText));
    assert(named(m1, StyleSheetColor::ViewText) == named(m2, StyleSheetColor::ViewText));
    assert(named(m1, StyleSheetColor::TooltipText) == named(m2, StyleSheetColor::TooltipText));
    assert(named(m1, StyleSheetColor::ComplementaryText) == named(m2, StyleSheetColor::ComplementaryText));
    assert(named(m1, StyleSheetColor::HeaderText) == named(m2, StyleSheetColor::HeaderText));
    match c {
        StyleSheetColor::PositiveText | StyleSheetColor::NeutralText | StyleSheetColor::NegativeText
        | StyleSheetColor::Frame => {
            assert(lookup(m1, w, ColorKey::PositiveText) == lookup(m2, w, ColorKey::PositiveText));
            assert(lookup(m1, w, ColorKey::NeutralText) == lookup(m2, w, ColorKey::NeutralText));
            assert(lookup(m1, w, ColorKey::NegativeText) == lookup(m2, w, ColorKey::NegativeText));
            assert(lookup(m1, w, ColorKey::Frame) == lookup(m2, w, ColorKey::Frame));
        },
        _ => {
            let g = match c {
                StyleSheetColor::ButtonBackground | StyleSheetColor::ButtonPositiveText
                | StyleSheetColor::ButtonNeutralText | StyleSheetColor::ButtonNegativeText => ColorGroup::Button,
                StyleSheetColor::ViewBackground | StyleSheetColor::ViewPositiveText
                | StyleSheetColor::ViewNeutralText | StyleSheetColor::ViewNegativeText => ColorGroup::View,
                StyleSheetColor::TooltipBackground | StyleSheetColor::TooltipPositiveText
                | StyleSheetColor::TooltipNeutralText | StyleSheetColor::TooltipNegativeText => ColorGroup::Tooltip,
                StyleSheetColor::ComplementaryBackground | StyleSheetColor::ComplementaryPositiveText
                | StyleSheetColor::ComplementaryNeutralText | StyleSheetColor::ComplementaryNegativeText => ColorGroup::Complementary,
                _ => ColorGroup::Header,
            };
            assert(lookup(m1, g, ColorKey::Background) == lookup(m2, g, ColorKey::Background));
            assert(lookup(m1, g, ColorKey::PositiveText) == lookup(m2, g, ColorKey::PositiveText));
            assert(lookup(m1, g, ColorKey::NeutralText) == lookup(m2, g, ColorKey::NeutralText));
            assert(lookup(m1, g, ColorKey::NegativeText) == lookup(m2, g, ColorKey::NegativeText));
        },
    }
}

// ───────────────────────────── executables ────────────────────────────────

impl ColorScheme {
    /// A scheme with no colors.
    pub fn empty() -> (s: Self)
        ensures
            s@ == Map::<(ColorGroup, ColorKey), Color>::empty(),
    {
        ColorScheme { entries: Vec::new() }
    }

    /// Record a color (overriding an earlier one for the same entry).
    fn insert(&mut self, group: ColorGroup, key: ColorKey, color: Color)
        ensures
            final(self)@ == old(self)@.insert((group, key), color),
    {
        proof {
            lemma_entries_push(self.entries@, (group, key, color));
        }
        self.entries.push((group, key, color));
    }

    /// The color recorded for exactly (`group`, `key`), if any.
    fn entry(&self, group: ColorGroup, key: ColorKey) -> (r: Option<Color>)
        ensures
            r == (if self@.contains_key((group, key)) {
                Some(self@[(group, key)])
            } else {
                None
            }),
    {
        let mut found: Option<Color> = None;
        let mut i: usize = 0;
        while i < self.entries.len()
            invariant
                i <= self.entries@.len(),
                found == (if entries_map(self.entries@.take(i as int)).contains_key((group, key)) {
                    Some(entries_map(self.entries@.take(i as int))[(group, key)])
                } else {
                    None
                }),
            decreases self.entries.len() - i,
        {
            let e = self.entries[i];
            assert(self.entries@.take(i + 1).drop_last() =~= self.entries@.take(i as int));
            if e.0 == group && e.1 == key {
                found = Some(e.2);
            }
            i += 1;
        }
        assert(self.entries@.take(self.entries@.len() as int) =~= self.entries@);
        found
    }

    /// Look up a color with the `KColorScheme` fallback chain.
    pub fn get(&self, group: ColorGroup, key: ColorKey) -> (r: Option<Color>)
        ensures
            r == lookup(self@, group, key),
    {
        let gs = group.fallback_chain();
        let mut i: usize = 0;
        assert(gs@.skip(0) =~= gs@);
        while i < gs.len()
            invariant
                i <= gs@.len(),
                gs@ == chain(group),
                lookup(self@, group, key) == first_in(self@, gs@.skip(i as int), key),
            decreases gs.len() - i,
        {
            assert(gs@.skip(i as int)[0] == gs@[i as int]);
            assert(gs@.skip(i as int).drop_first() =~= gs@.skip(i + 1));
            match self.entry(gs[i], key) {
                Some(c) => {
                    return Some(c);
                },
                None => {},
            }
            i += 1;
        }
        None
    }

    /// Resolve a `KSvg` `StyleSheetColor` like `ImageSetPrivate::namedColor`
    /// (Window color set, normal status).
    pub fn named_color(&self, name: StyleSheetColor) -> (c: Color)
        ensures
            c == named(self@, name),
        decreases rank(name),
    {
        match name {
            StyleSheetColor::Text => match self.get(ColorGroup::Window, ColorKey::Foreground) {
                Some(x) => x,
                None => Color::opaque(0, 0, 0),
            },
            StyleSheetColor::Background => match self.get(ColorGroup::Window, ColorKey::Background) {
                Some(x) => x,
                None => Color::opaque(255, 255, 255),
            },
            StyleSheetColor::Highlight => match self.get(ColorGroup::Selection, ColorKey::Background) {
                Some(x) => x,
                None => Color::opaque(0, 0, 0),
            },
            StyleSheetColor::HighlightedText => match self.get(ColorGroup::Selection, ColorKey::Foreground) {
                Some(x) => x,
                None => Color::opaque(255, 255, 255),
            },
            StyleSheetColor::PositiveText => match self.get(ColorGroup::Window, ColorKey::PositiveText) {
                Some(x) => x,
                None => self.named_color(StyleSheetColor::Text),
            },
            StyleSheetColor::NeutralText => match self.get(ColorGroup::Window, ColorKey::NeutralText) {
                Some(x) => x,
                None => self.named_color(StyleSheetColor::Text),
            },
            StyleSheetColor::NegativeText => match self.get(ColorGroup::Window, ColorKey::NegativeText) {
                Some(x) => x,
                None => self.named_color(StyleSheetColor::Text),
            },
            StyleSheetColor::ButtonText => match self.get(ColorGroup::Button, ColorKey::Foreground) {
                Some(x) => x,
                None => self.named_color(StyleSheetColor::Text),
            },
            StyleSheetColor::ButtonBackground => match self.get(ColorGroup::Button, ColorKey::Background) {
                Some(x) => x,
                None => self.named_color(StyleSheetColor::Background),
            },
            StyleSheetColor::ButtonHover => match self.get(ColorGroup::Button, ColorKey::DecorationHover) {
                Some(x) => x,
                None => self.named_color(StyleSheetColor::ButtonText),
            },
            StyleSheetColor::ButtonFocus => match self.get(ColorGroup::Button, ColorKey::DecorationFocus) {
                Some(x) => x,
                None => self.named_color(StyleSheetColor::ButtonHover),
            },
            StyleSheetColor::ButtonHighlightedText => self.named_color(StyleSheetColor::HighlightedText),
            StyleSheetColor::ButtonPositiveText => match self.get(ColorGroup::Button, ColorKey::PositiveText) {
                Some(x) => x,
                None => self.named_color(StyleSheetColor::ButtonText),
            },
            StyleSheetColor::ButtonNeutralText => match self.get(ColorGroup::Button, ColorKey::NeutralText) {
                Some(x) => x,
                None => self.named_color(StyleSheetColor::ButtonText),
            },
            StyleSheetColor::ButtonNegativeText => match self.get(ColorGroup::Button, ColorKey::NegativeText) {
                Some(x) => x,
                None => self.named_color(StyleSheetColor::ButtonText),
            },
            StyleSheetColor::ViewText => match self.get(ColorGroup::View, ColorKey::Foreground) {
                Some(x) => x,
                None => Color::opaque(0, 0, 0),
            },
            StyleSheetColor::ViewBackground => match self.get(ColorGroup::View, ColorKey::Background) {
                Some(x) => x,
                None => Color::opaque(255, 255, 255),
            },
            StyleSheetColor::ViewHover => match self.get(ColorGroup::View, ColorKey::DecorationHover) {
                Some(x) => x,
                None => self.named_color(StyleSheetColor::ViewText),
            },
            StyleSheetColor::ViewFocus => match self.get(ColorGroup::View, ColorKey::DecorationFocus) {
                Some(x) => x,
                None => self.named_color(StyleSheetColor::ViewHover),
            },
            StyleSheetColor::ViewHighlightedText => self.named_color(StyleSheetColor::HighlightedText),
            StyleSheetColor::ViewPositiveText => match self.get(ColorGroup::View, ColorKey::PositiveText) {
                Some(x) => x,
                None => self.named_color(StyleSheetColor::ViewText),
            },
            StyleSheetColor::ViewNeutralText => match self.get(ColorGroup::View, ColorKey::NeutralText) {
                Some(x) => x,
                None => self.named_color(StyleSheetColor::ViewText),
            },
            StyleSheetColor::ViewNegativeText => match self.get(ColorGroup::View, ColorKey::NegativeText) {
                Some(x) => x,
                None => self.named_color(StyleSheetColor::ViewText),
            },
            StyleSheetColor::TooltipText => match self.get(ColorGroup::Tooltip, ColorKey::Foreground) {
                Some(x) => x,
                None => self.named_color(StyleSheetColor::Text),
            },
            StyleSheetColor::TooltipBackground => match self.get(ColorGroup::Tooltip, ColorKey::Background) {
                Some(x) => x,
                None => self.named_color(StyleSheetColor::Background),
            },
            StyleSheetColor::TooltipHover => match self.get(ColorGroup::Tooltip, ColorKey::DecorationHover) {
                Some(x) => x,
                None => self.named_color(StyleSheetColor::TooltipText),
            },
            StyleSheetColor::TooltipFocus => match self.get(ColorGroup::Tooltip, ColorKey::DecorationFocus) {
                Some(x) => x,
                None => self.named_color(StyleSheetColor::TooltipHover),
            },
            StyleSheetColor::TooltipHighlightedText => self.named_color(StyleSheetColor::HighlightedText),
            StyleSheetColor::TooltipPositiveText => match self.get(ColorGroup::Tooltip, ColorKey::PositiveText) {
                Some(x) => x,
                None => self.named_color(StyleSheetColor::TooltipText),
            },
            StyleSheetColor::TooltipNeutralText => match self.get(ColorGroup::Tooltip, ColorKey::NeutralText) {
                Some(x) => x,
                None => self.named_color(StyleSheetColor::TooltipText),
            },
            StyleSheetColor::TooltipNegativeText => match self.get(ColorGroup::Tooltip, ColorKey::NegativeText) {
                Some(x) => x,
                None => self.named_color(StyleSheetColor::TooltipText),
            },
            StyleSheetColor::ComplementaryText => match self.get(ColorGroup::Complementary, ColorKey::Foreground) {
                Some(x) => x,
                None => self.named_color(StyleSheetColor::Text),
            },
            StyleSheetColor::ComplementaryBackground => match self.get(ColorGroup::Complementary, ColorKey::Background) {
                Some(x) => x,
                None => self.named_color(StyleSheetColor::Background),
            },
            StyleSheetColor::ComplementaryHover => match self.get(ColorGroup::Complementary, ColorKey::DecorationHover) {
                Some(x) => x,
                None => self.named_color(StyleSheetColor::ComplementaryText),
            },
            StyleSheetColor::ComplementaryFocus => match self.get(ColorGroup::Complementary, ColorKey::DecorationFocus) {
                Some(x) => x,
                None => self.named_color(StyleSheetColor::ComplementaryHover),
            },
            StyleSheetColor::ComplementaryHighlightedText => self.named_color(StyleSheetColor::HighlightedText),
            StyleSheetColor::ComplementaryPositiveText => match self.get(ColorGroup::Complementary, ColorKey::PositiveText) {
                Some(x) => x,
                None => self.named_color(StyleSheetColor::ComplementaryText),
            },
            StyleSheetColor::ComplementaryNeutralText => match self.get(ColorGroup::Complementary, ColorKey::NeutralText) {
                Some(x) => x,
                None => self.named_color(StyleSheetColor::ComplementaryText),
            },
            StyleSheetColor::ComplementaryNegativeText => match self.get(ColorGroup::Complementary, ColorKey::NegativeText) {
                Some(x) => x,
                None => self.named_color(StyleSheetColor::ComplementaryText),
            },
            StyleSheetColor::HeaderText => match self.get(ColorGroup::Header, ColorKey::Foreground) {
                Some(x) => x,
                None => self.named_color(StyleSheetColor::Text),
            },
            StyleSheetColor::HeaderBackground => match self.get(ColorGroup::Header, ColorKey::Background) {
                Some(x) => x,
                None => self.named_color(StyleSheetColor::Background),
            },
            StyleSheetColor::HeaderHover => match self.get(ColorGroup::Header, ColorKey::DecorationHover) {
                Some(x) => x,
                None => self.named_color(StyleSheetColor::HeaderText),
            },
            StyleSheetColor::HeaderFocus => match self.get(ColorGroup::Header, ColorKey::DecorationFocus) {
                Some(x) => x,
                None => self.named_color(StyleSheetColor::HeaderHover),
            },
            StyleSheetColor::HeaderHighlightedText => self.named_color(StyleSheetColor::HighlightedText),
            StyleSheetColor::HeaderPositiveText => match self.get(ColorGroup::Header, ColorKey::PositiveText) {
                Some(x) => x,
                None => self.named_color(StyleSheetColor::HeaderText),
            },
            StyleSheetColor::HeaderNeutralText => match self.get(ColorGroup::Header, ColorKey::NeutralText) {
                Some(x) => x,
                None => self.named_color(StyleSheetColor::HeaderText),
            },
            StyleSheetColor::HeaderNegativeText => match self.get(ColorGroup::Header, ColorKey::NegativeText) {
                Some(x) => x,
                None => self.named_color(StyleSheetColor::HeaderText),
            },
            StyleSheetColor::Frame => match self.get(ColorGroup::Window, ColorKey::Frame) {
                Some(x) => x,
                None => match self.get(ColorGroup::Window, ColorKey::Background) {
                    Some(x) => x,
                    None => Color::opaque(255, 255, 255),
                },
            },
        }
    }

    /// Resolve the theme.conf colors like `Plasma::Theme::color` does.
    pub fn theme_conf_colors(&self) -> (r: ThemeConfColors)
        ensures
            r.normal == named(self@, StyleSheetColor::Text),
            r.highlighted == named(self@, StyleSheetColor::HighlightedText),
            r.highlight_background == named(self@, StyleSheetColor::Highlight),
    {
        ThemeConfColors {
            normal: self.named_color(StyleSheetColor::Text),
            highlighted: self.named_color(StyleSheetColor::HighlightedText),
            highlight_background: self.named_color(StyleSheetColor::Highlight),
        }
    }

    /// Return a copy of this scheme with the accent-driven roles overridden:
    /// the Selection `Background` (the Highlight role) and the
    /// `DecorationFocus`/`DecorationHover` keys of every color set.
    pub fn with_accent_color(self, accent: Color) -> (r: Self)
        ensures
            r@ == accented(self@, accent),
    {
        let mut s = self;
        s.insert(ColorGroup::Selection, ColorKey::Background, accent);
        let groups = vec![
            ColorGroup::Window,
            ColorGroup::View,
            ColorGroup::Button,
            ColorGroup::Tooltip,
            ColorGroup::Complementary,
            ColorGroup::Header,
            ColorGroup::Selection,
        ];
        let mut i: usize = 0;
        assert(forall|p: (ColorGroup, ColorKey)| done(p, 0) <==> p == (ColorGroup::Selection, ColorKey::Background));
        while i < groups.len()
            invariant
                i <= groups@.len(),
                groups@ == seq![ColorGroup::Window, ColorGroup::View, ColorGroup::Button, ColorGroup::Tooltip, ColorGroup::Complementary, ColorGroup::Header, ColorGroup::Selection],
                forall|p: (ColorGroup, ColorKey)| #[trigger] s@.contains_key(p) == (self@.contains_key(p) || done(p, i as int)),
                forall|p: (ColorGroup, ColorKey)| #[trigger] s@.contains_key(p) ==> s@[p] == if done(p, i as int) {
                    accent
                } else {
                    self@[p]
                },
            decreases groups.len() - i,
        {
            let g = groups[i];
            assert(group_index(g) == i) by {
                assert(g == groups@[i as int]);
            }
            s.insert(g, ColorKey::DecorationFocus, accent);
            s.insert(g, ColorKey::DecorationHover, accent);
            i += 1;
        }
        proof {
            assert forall|p: (ColorGroup, ColorKey)| done(p, 7) == highlight_role(p) by {
                assert(group_index(p.0) < 7);
            }
            assert(s@ =~= accented(self@, accent));
        }
        s
    }
}

impl ColorScheme {
    /// Parse `KConfig` text in either format: `[Colors:*]` groups (qualifiers
    /// like `[Inactive]` ignored) with `Background`/`BackgroundNormal`-style
    /// keys holding `#rrggbb`, `#rrggbbaa` or `r,g,b` values (quotes
    /// stripped). Comments, blank lines, other groups and unknown keys are
    /// skipped; the first bad value is an [`Error::InvalidColor`].
    pub fn parse(text: &str, path: &str) -> (r: Result<Self, Error>)
        ensures
            match r {
                Ok(s) => parse_text(text@) == Ok::<_, (Seq<char>, Seq<char>)>(s@),
                Err(e) => {
                    &&& parse_text(text@) is Err
                    &&& e matches Error::InvalidColor { path: p, key: k, value: v } && p@ == path@ && (
                    k@, v@) == parse_text(text@)->Err_0
                },
            },
    {
        let lines = trimmed_lines_of(text);
        let ghost ls = trimmed_lines(text@);
        assert(lines@.len() == ls.len());
        let mut scheme = ColorScheme::empty();
        let mut current: Option<ColorGroup> = None;
        let mut i: usize = 0;
        while i < lines.len()
            invariant
                i <= lines@.len(),
                seqs_of(lines@) == ls,
                lines@.len() == ls.len(),
                ls == trimmed_lines(text@),
                parse_lines(ls, i as int) == Ok::<_, (Seq<char>, Seq<char>)>(ParseState { current, colors: scheme@ }),
            decreases lines.len() - i,
        {
            let line = &lines[i];
            assert(seqs_of(lines@)[i as int] == line@);
            let ghost st = ParseState { current, colors: scheme@ };
            if line.len() == 0 || line[0] == '#' || line[0] == ';' {
                i += 1;
                continue;
            }
            if line[0] == '[' && line[line.len() - 1] == ']' {
                let inner = crate::text::slice_chars(line, 1, line.len() - 1);
                let name = string_of(&inner);
                current = ColorGroup::parse(name.as_str());
                i += 1;
                continue;
            }
            let group = match current {
                Some(g) => g,
                None => {
                    i += 1;
                    continue;
                },
            };
            let (k, v) = match split_once_chars(line, '=') {
                Some(kv) => kv,
                None => {
                    i += 1;
                    continue;
                },
            };
            let kname = string_of(&k);
            let key = match normalize_key(kname.as_str()) {
                Some(key) => key,
                None => {
                    i += 1;
                    continue;
                },
            };
            let tv = trim_chars(&v);
            let value = strip_matches_chars(&tv, '"');
            if value.len() == 0 {
                i += 1;
                continue;
            }
            let vs = string_of(&value);
            match parse_color(path, key_name(key), vs.as_str()) {
                Ok(c) => {
                    scheme.insert(group, key, c);
                },
                Err(e) => {
                    proof {
                        assert(parse_step(st, ls[i as int]) is Err);
                        assert(parse_lines(ls, i + 1) is Err);
                        lemma_parse_err_sticks(ls, i + 1, ls.len() as int);
                    }
                    return Err(e);
                },
            }
            i += 1;
        }
        Ok(scheme)
    }

    /// Deepen the highlight-driven roles by `percent` percent (0 =
    /// unchanged): the decoration roles of every color set and the
    /// `Highlight` role resolve to their former color darkened toward black
    /// (each channel scaled by `100 - percent` percent) and then handed to
    /// `boost`, which raises their saturation by the same percentage; every
    /// other role (text, backgrounds, highlighted text, ...) resolves to the
    /// color it had, also where it used to fall back on a highlight role.
    pub fn with_highlight_deepening<F: Fn(Color) -> Color>(self, percent: u8, boost: F) -> (r: Self)
        requires
            percent <= 100,
            forall|c: Color| call_requires(boost, (c,)),
        ensures
            percent == 0 ==> r@ == self@,
            percent > 0 ==> forall|g: ColorGroup, k: ColorKey|
                match #[trigger] lookup(self@, g, k) {
                    None => lookup(r@, g, k) is None,
                    Some(c) => lookup(r@, g, k) matches Some(x) && deepened_as((g, k), c, x, percent, boost),
                },
            forall|c: StyleSheetColor| !deepened_role(c) ==> #[trigger] named(r@, c) == named(self@, c),
    {
        if percent == 0 {
            return self;
        }
        let groups = [
            ColorGroup::Window,
            ColorGroup::View,
            ColorGroup::Button,
            ColorGroup::Tooltip,
            ColorGroup::Complementary,
            ColorGroup::Header,
            ColorGroup::Selection,
        ];
        let keys = [
            ColorKey::Background,
            ColorKey::Foreground,
            ColorKey::DecorationFocus,
            ColorKey::DecorationHover,
            ColorKey::Highlight,
            ColorKey::HighlightedText,
            ColorKey::Link,
            ColorKey::Visited,
            ColorKey::PositiveText,
            ColorKey::NeutralText,
            ColorKey::NegativeText,
            ColorKey::Frame,
        ];
        assert(groups@ == all_groups());
        assert(keys@ == all_keys());
        let ghost m = self@;
        let mut out: Vec<(ColorGroup, ColorKey, Color)> = Vec::new();
        let mut i: usize = 0;
        while i < 7
            invariant
                i <= 7,
                m == self@,
                groups@ == all_groups(),
                keys@ == all_keys(),
                0 < percent <= 100,
                forall|c: Color| call_requires(boost, (c,)),
                forall|p: (ColorGroup, ColorKey)| #[trigger] entries_map(out@).contains_key(p) <==> (
                group_index(p.0) < i && lookup(m, p.0, p.1) is Some),
                forall|p: (ColorGroup, ColorKey)| #[trigger] entries_map(out@).contains_key(p) ==> deepened_as(
                    p,
                    lookup(m, p.0, p.1)->0,
                    entries_map(out@)[p],
                    percent,
                    boost,
                ),
            decreases 7 - i,
        {
            let g = groups[i];
            assert(group_index(g) == i);
            let mut j: usize = 0;
            while j < 12
                invariant
                    i < 7,
                    j <= 12,
                    m == self@,
                    g == all_groups()[i as int],
                    group_index(g) == i,
                    keys@ == all_keys(),
                    0 < percent <= 100,
                    forall|c: Color| call_requires(boost, (c,)),
                    forall|p: (ColorGroup, ColorKey)| #[trigger] entries_map(out@).contains_key(p) <==> ((
                    group_index(p.0) < i || (p.0 == g && key_index(p.1) < j)) && lookup(m, p.0, p.1) is Some),
                    forall|p: (ColorGroup, ColorKey)| #[trigger] entries_map(out@).contains_key(p) ==> deepened_as(
                        p,
                        lookup(m, p.0, p.1)->0,
                        entries_map(out@)[p],
                        percent,
                        boost,
                    ),
                decreases 12 - j,
            {
                let k = keys[j];
                assert(key_index(k) == j);
                match self.get(g, k) {
                    Some(c) => {
                        let role = (g == ColorGroup::Selection && k == ColorKey::Background) || k
                            == ColorKey::DecorationFocus || k == ColorKey::DecorationHover;
                        let v = if role {
                            let dark = Color {
                                r: scale_u8(c.r, percent),
                                g: scale_u8(c.g, percent),
                                b: scale_u8(c.b, percent),
                                a: c.a,
                            };
                            assert(dark == scaled(c, percent));
                            boost(dark)
                        } else {
                            c
                        };
                        let ghost before = out@;
                        out.push((g, k, v));
                        proof {
                            lemma_entries_push(before, (g, k, v));
                            assert(deepened_as((g, k), c, v, percent, boost));
                        }
                    },
                    None => {},
                }
                j += 1;
            }
            i += 1;
        }
        let r = ColorScheme { entries: out };
        proof {
            let d = entries_map(out@);
            assert forall|p: (ColorGroup, ColorKey)| #[trigger] d.contains_key(p) <==> lookup(m, p.0, p.1) is Some by {
                assert(group_index(p.0) < 7);
            }
            assert forall|g: ColorGroup, k: ColorKey|
                match #[trigger] lookup(self@, g, k) {
                    None => lookup(r@, g, k) is None,
                    Some(c) => lookup(r@, g, k) matches Some(x) && deepened_as((g, k), c, x, percent, boost),
                } by {
                lemma_pinned_lookup(m, d, percent, boost, g, k);
            }
            assert forall|g: ColorGroup, k: ColorKey| !highlight_role((g, k)) implies #[trigger] lookup(r@, g, k)
                == lookup(m, g, k) by {
                lemma_pinned_lookup(m, d, percent, boost, g, k);
            }
            assert forall|c: StyleSheetColor| !deepened_role(c) implies #[trigger] named(r@, c) == named(self@, c) by {
                lemma_deepening_keeps_other_roles(r@, m, c);
            }
        }
        r
    }
}

/// A channel darkened toward black by `percent` percent.
fn scale_u8(c: u8, percent: u8) -> (r: u8)
    requires
        percent <= 100,
    ensures
        r == scale_channel(c, percent),
{
    let scale: u16 = 100 - (percent as u16);
    assert((c as u16) * scale <= 25500) by (nonlinear_arith)
        requires
            c <= 255,
            scale <= 100,
    ;
    let v = ((c as u16) * scale) / 100;
    assert(v <= 255);
    v as u8
}

/// Build the `current-color-scheme` CSS block, mirroring
/// `ImageSetPrivate::svgStyleSheet`: `.ColorScheme-<Role>{color:#rrggbb;}`
/// for every role in order.
pub fn style_sheet(scheme: &ColorScheme) -> (css: String)
    ensures
        css@ == sheet(scheme@),
{
    let mut css = String::new();
    let mut i: usize = 0;
    while i < ROLE_COUNT
        invariant
            i <= ROLE_COUNT,
            css@ == sheet_rules(scheme@, i as int),
        decreases ROLE_COUNT - i,
    {
        let role = role_at_index(i);
        let ghost before = css@;
        push_str(&mut css, ".ColorScheme-");
        push_str(&mut css, role.css_name());
        push_str(&mut css, "{color:");
        let c = scheme.named_color(role).to_css_string();
        push_str(&mut css, c.as_str());
        push_str(&mut css, ";}");
        assert(css@ =~= before + css_rule(scheme@, role));
        i += 1;
    }
    css
}

/// Extract `[General] ColorScheme=` from kdeglobals text.
pub fn general_color_scheme_name(text: &str) -> (r: Option<String>)
    ensures
        match r {
            Some(n) => scheme_name(text@) == Some(n@),
            None => scheme_name(text@) is None,
        },
{
    let lines = trimmed_lines_of(text);
    let ghost ls = trimmed_lines(text@);
    assert(lines@.len() == ls.len());
    let mut in_general = false;
    let mut i: usize = 0;
    while i < lines.len()
        invariant
            i <= lines@.len(),
            seqs_of(lines@) == ls,
            lines@.len() == ls.len(),
            ls == trimmed_lines(text@),
            scheme_name(text@) == scheme_name_from(ls, i as int, in_general),
        decreases lines.len() - i,
    {
        let line = &lines[i];
        assert(seqs_of(lines@)[i as int] == line@);
        if line.len() > 0 && line[0] == '[' && line[line.len() - 1] == ']' {
            in_general = eq_str(line, "[General]");
            i += 1;
            continue;
        }
        if in_general {
            match split_once_chars(line, '=') {
                Some((k, v)) => {
                    let key = trim_chars(&k);
                    if eq_str(&key, "ColorScheme") {
                        let tv = trim_chars(&v);
                        let value = strip_matches_chars(&tv, '"');
                        if value.len() > 0 {
                            return Some(string_of(&value));
                        }
                    }
                },
                None => {},
            }
        }
        i += 1;
    }
    None
}

} // verus!
