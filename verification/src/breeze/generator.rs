//! The configuration half of the theme generator, after fcitx's
//! `WatcherApp::generateTheme()`: which `theme.conf` keys are set, in which
//! order and to what, from the theme's colors and the measured frames; and
//! the 1-bit mask of the blur image.

use vstd::prelude::*;
use crate::breeze::color::{hex_string, widen, Color};
use crate::breeze::colorscheme::{ColorScheme, Rgb};
use crate::breeze::ini::{fresh, get_path, lemma_set_get, lemma_set_keeps_others, path_segs, set_path, RawConfig, Tree};
use crate::breeze::render::{quad, Pixmap, Rgba};
use crate::text::{dec_int, push_dec_i64, push_str};

verus! {

/// Icon size `KIconLoader::SizeSmall`.
pub const ICON_SIZE_SMALL: u32 = 16;

/// Icon size `KIconLoader::SizeSmallMedium`.
pub const ICON_SIZE_SMALL_MEDIUM: u32 = 22;

/// Result of a generation run.
#[derive(Debug, Default)]
pub struct GenerateResult {
    /// Files written, relative to the output directory.
    pub files: Vec<String>,
}

/// The Plasma grid unit (the font's "M" height): the canonical 16 pixels.
pub fn grid_unit() -> (r: i32)
    ensures
        r == 16,
{
    16
}

/// The text margin of the generated theme: half the small spacing
/// `max(grid / 4, 2)` of the 16-pixel grid unit.
pub open spec fn text_margin() -> int {
    2
}

/// A pixel of a 1-bit mask: black where there is any opacity, transparent
/// elsewhere.
pub open spec fn mask_px(p: Rgba) -> Rgba {
    if p.3 > 0 {
        (0u8, 0u8, 0u8, 255u8)
    } else {
        (0u8, 0u8, 0u8, 0u8)
    }
}

/// Convert a pixmap to a 1-bit mask (`QPixmap::mask` semantics): opaque
/// pixels become black, transparent pixels stay transparent.
pub fn bitmap_mask(src: &Pixmap) -> (r: Pixmap)
    requires
        src.wf(),
        src.width * src.height * 4 <= u32::MAX,
    ensures
        r.wf(),
        r.width == src.width,
        r.height == src.height,
        forall|j: int|
            0 <= j < src.width * src.height ==> #[trigger] quad(r.data@, j) == mask_px(
                quad(src.data@, j),
            ),
{
    let mut out = Pixmap::new(src.width, src.height);
    let n = src.data.len();
    let mut i: usize = 0;
    let ghost mut j: int = 0;
    while i < n
        invariant
            src.wf(),
            out.wf(),
            out.width == src.width,
            out.height == src.height,
            n == src.data@.len(),
            out.data@.len() == n,
            i == 4 * j,
            0 <= j <= src.width * src.height,
            forall|q: int| 0 <= q < j ==> #[trigger] quad(out.data@, q) == mask_px(quad(src.data@, q)),
            forall|k: int| 4 * j <= k < n ==> out.data@[k] == 0,
        decreases n - i,
    {
        let ghost before = out.data@;
        if src.data[i + 3] > 0 {
            out.data.set(i, 0);
            out.data.set(i + 1, 0);
            out.data.set(i + 2, 0);
            out.data.set(i + 3, 255);
        }
        proof {
            assert forall|q: int| 0 <= q < j + 1 implies #[trigger] quad(out.data@, q) == mask_px(
                quad(src.data@, q),
            ) by {
                if q < j {
                    assert(quad(out.data@, q) == quad(before, q));
                } else {
                    assert(before[4 * j] == 0 && before[4 * j + 1] == 0 && before[4 * j + 2] == 0
                        && before[4 * j + 3] == 0);
                }
            }
        }
        i = i + 4;
        proof {
            j = j + 1;
        }
    }
    out
}

/// Frame margins rounded to whole pixels (left, top, right, bottom).
#[derive(Debug, Clone, Copy, PartialEq, Eq)]
pub struct Margins {
    /// Left margin.
    pub left: i64,
    /// Top margin.
    pub top: i64,
    /// Right margin.
    pub right: i64,
    /// Bottom margin.
    pub bottom: i64,
}

/// What rendering the theme's frames and icons found, as the configuration
/// needs it: the rounded margins and which optional images exist.
#[derive(Debug, Clone, Copy)]
pub struct PanelLayout {
    /// Margins of the `shadow` frame of `dialogs/background` (zero without one).
    pub shadow: Margins,
    /// Margins of the background frame plus the shadow offset.
    pub content: Margins,
    /// Whether the theme enables blur behind panels.
    pub blur_behind: bool,
    /// Margins of the `widgets/viewitem` highlight frame.
    pub highlight: Margins,
    /// Whether both `left-arrow` and `right-arrow` exist.
    pub prev_next: bool,
    /// Whether `right-arrow` exists.
    pub arrow: bool,
    /// Whether `radiobutton` exists.
    pub radio: bool,
    /// Whether `horizontal-line` exists.
    pub line: bool,
}

/// A configuration key path and the value set there.
pub type Entry = (Seq<char>, Seq<char>);

/// `t` after setting each entry in order.
pub open spec fn apply_sets(t: Tree, es: Seq<Entry>) -> Tree
    decreases es.len(),
{
    if es.len() == 0 {
        t
    } else {
        set_path(apply_sets(t, es.drop_last()), es.last().0, es.last().1)
    }
}

/// Setting one more entry.
pub proof fn lemma_apply_push(t: Tree, es: Seq<Entry>, e: Entry)
    ensures
        apply_sets(t, es.push(e)) == set_path(apply_sets(t, es), e.0, e.1),
{
    assert(es.push(e).drop_last() =~= es);
}

/// Setting two lists of entries one after the other.
pub proof fn lemma_apply_concat(t: Tree, a: Seq<Entry>, b: Seq<Entry>)
    ensures
        apply_sets(t, a + b) == apply_sets(apply_sets(t, a), b),
    decreases b.len(),
{
    if b.len() == 0 {
        assert(a + b =~= a);
    } else {
        lemma_apply_concat(t, a, b.drop_last());
        assert((a + b).drop_last() =~= a + b.drop_last());
    }
}

/// The value of the last entry set at `p`, if any.
pub open spec fn last_value(es: Seq<Entry>, p: Seq<char>) -> Option<Seq<char>>
    decreases es.len(),
{
    if es.len() == 0 {
        None
    } else if es.last().0 == p {
        Some(es.last().1)
    } else {
        last_value(es.drop_last(), p)
    }
}

/// The value held by the node at the `/`-separated path `p`, if it exists.
pub open spec fn value_at(t: Tree, p: Seq<char>) -> Option<Seq<char>> {
    match get_path(t, path_segs(p)) {
        Some(n) => Some(n.value),
        None => None,
    }
}

/// Setting a run of entries leaves at each path the value of the last entry
/// set there.
pub proof fn lemma_apply_sets_value(t: Tree, es: Seq<Entry>, p: Seq<char>, v: Seq<char>)
    requires
        last_value(es, p) == Some(v),
    ensures
        value_at(apply_sets(t, es), p) == Some(v),
    decreases es.len(),
{
    let e = es.last();
    let before = apply_sets(t, es.drop_last());
    if e.0 == p {
        lemma_set_get(before, p, v);
    } else {
        lemma_apply_sets_value(t, es.drop_last(), p, v);
        let n = get_path(before, path_segs(p))->Some_0;
        if path_segs(p) == path_segs(e.0) {
            crate::text::lemma_split_injective(p, e.0, '/');
        }
        lemma_set_keeps_others(before, e.0, e.1, path_segs(p), n);
    }
}

/// The last value at `p` of two runs set one after the other.
pub proof fn lemma_last_value_concat(a: Seq<Entry>, b: Seq<Entry>, p: Seq<char>)
    ensures
        last_value(a + b, p) == if last_value(b, p) is Some {
            last_value(b, p)
        } else {
            last_value(a, p)
        },
    decreases b.len(),
{
    if b.len() == 0 {
        assert(a + b =~= a);
    } else {
        assert((a + b).drop_last() =~= a + b.drop_last());
        lemma_last_value_concat(a, b.drop_last(), p);
    }
}

/// A run none of whose paths has the character of `p` at position `i` sets
/// nothing at `p`.
pub proof fn lemma_last_value_none(b: Seq<Entry>, p: Seq<char>, i: int)
    requires
        0 <= i < p.len(),
        forall|k: int| 0 <= k < b.len() ==> i < (#[trigger] b[k]).0.len() && b[k].0[i] != p[i],
    ensures
        last_value(b, p) is None,
    decreases b.len(),
{
    if b.len() > 0 {
        assert(b.last() == b[b.len() - 1]);
        assert forall|k: int| 0 <= k < b.len() - 1 implies i < (#[trigger] b.drop_last()[k]).0.len()
            && b.drop_last()[k].0[i] != p[i] by {
            assert(b.drop_last()[k] == b[k]);
        }
        lemma_last_value_none(b.drop_last(), p, i);
    }
}

/// A run of margin entries below a path that differs from `p` at position
/// `i` sets nothing at `p`.
proof fn lemma_margin_none(path: Seq<char>, m: Margins, p: Seq<char>, i: int)
    requires
        0 <= i < path.len(),
        i < p.len(),
        path[i] != p[i],
    ensures
        last_value(margin_entries(path, m), p) is None,
{
    let es = margin_entries(path, m);
    assert forall|k: int| 0 <= k < es.len() implies i < (#[trigger] es[k]).0.len() && es[k].0[i] != p[i] by {
        assert(es[k].0 == path + es[k].0.skip(path.len() as int));
    }
    lemma_last_value_none(es, p, i);
}

/// The margin entries below `path` set each side's value once.
proof fn lemma_margin_sides(path: Seq<char>, m: Margins)
    ensures
        last_value(margin_entries(path, m), path + "/Left"@) == Some(dec_int(m.left as int)),
        last_value(margin_entries(path, m), path + "/Top"@) == Some(dec_int(m.top as int)),
        last_value(margin_entries(path, m), path + "/Right"@) == Some(dec_int(m.right as int)),
        last_value(margin_entries(path, m), path + "/Bottom"@) == Some(dec_int(m.bottom as int)),
{
    reveal_strlit("/Left");
    reveal_strlit("/Top");
    reveal_strlit("/Right");
    reveal_strlit("/Bottom");
    reveal_with_fuel(last_value, 5);
    let es = margin_entries(path, m);
    assert(es.drop_last() =~= seq![es[0], es[1], es[2]]);
    assert(es.drop_last().drop_last() =~= seq![es[0], es[1]]);
    assert(es.drop_last().drop_last().drop_last() =~= seq![es[0]]);
    assert(seq![es[0]].drop_last() =~= Seq::<Entry>::empty());
    assert((path + "/Left"@).len() != (path + "/Top"@).len());
    assert((path + "/Left"@).len() != (path + "/Right"@).len());
    assert((path + "/Left"@).len() != (path + "/Bottom"@).len());
    assert((path + "/Top"@).len() != (path + "/Right"@).len());
    assert((path + "/Top"@).len() != (path + "/Bottom"@).len());
    assert((path + "/Right"@).len() != (path + "/Bottom"@).len());
}

/// The highlight and icon entries set nothing at a path with a `B` where
/// each of their paths has another letter (the sixth or the twelfth).
proof fn lemma_after_panel_none(l: PanelLayout, p: Seq<char>, i: int)
    requires
        i == 5 || i == 11,
        i < p.len(),
        p[i] == 'B',
    ensures
        last_value(highlight_entries(l), p) is None,
        last_value(icon_entries(l), p) is None,
{
    reveal_strlit("InputPanel/Highlight/Image");
    reveal_strlit("Menu/Highlight/Image");
    reveal_strlit("InputPanel/Highlight/Margin");
    reveal_strlit("Menu/Highlight/Margin");
    reveal_strlit("InputPanel/TextMargin");
    reveal_strlit("Menu/TextMargin");
    reveal_strlit("InputPanel/PrevPage/Image");
    reveal_strlit("InputPanel/NextPage/Image");
    reveal_strlit("Menu/SubMenu/Image");
    reveal_strlit("Menu/CheckBox/Image");
    reveal_strlit("Menu/Separator/Image");
    let h = floored(l.highlight);
    let text = Margins { top: (h.top + text_margin()) as i64, bottom: (h.bottom + text_margin()) as i64, ..h };
    let imgs: Seq<Entry> = seq![
        ("InputPanel/Highlight/Image"@, "highlight.png"@),
        ("Menu/Highlight/Image"@, "highlight.png"@),
    ];
    lemma_last_value_none(imgs, p, i);
    let a = margin_entries("InputPanel/Highlight/Margin"@, h);
    let b = margin_entries("Menu/Highlight/Margin"@, h);
    let c = margin_entries("InputPanel/TextMargin"@, text);
    let d = margin_entries("Menu/TextMargin"@, h);
    lemma_margin_none("InputPanel/Highlight/Margin"@, h, p, i);
    lemma_margin_none("Menu/Highlight/Margin"@, h, p, i);
    lemma_margin_none("InputPanel/TextMargin"@, text, p, i);
    lemma_margin_none("Menu/TextMargin"@, h, p, i);
    lemma_last_value_concat(imgs, a, p);
    lemma_last_value_concat(imgs + a, b, p);
    lemma_last_value_concat(imgs + a + b, c, p);
    lemma_last_value_concat(imgs + a + b + c, d, p);
    assert(highlight_entries(l) == imgs + a + b + c + d);
    let pn: Seq<Entry> = if l.prev_next {
        seq![("InputPanel/PrevPage/Image"@, "prev.png"@), ("InputPanel/NextPage/Image"@, "next.png"@)]
    } else {
        Seq::empty()
    };
    let ar: Seq<Entry> = if l.arrow { seq![("Menu/SubMenu/Image"@, "arrow.png"@)] } else { Seq::empty() };
    let ra: Seq<Entry> = if l.radio { seq![("Menu/CheckBox/Image"@, "radio.png"@)] } else { Seq::empty() };
    let li: Seq<Entry> = if l.line { seq![("Menu/Separator/Image"@, "line.png"@)] } else { Seq::empty() };
    lemma_last_value_none(pn, p, i);
    lemma_last_value_none(ar, p, i);
    lemma_last_value_none(ra, p, i);
    lemma_last_value_none(li, p, i);
    lemma_last_value_concat(pn, ar, p);
    lemma_last_value_concat(pn + ar, ra, p);
    lemma_last_value_concat(pn + ar + ra, li, p);
    assert(icon_entries(l) == pn + ar + ra + li);
}

/// One background margin entry, traced through the whole run of entries:
/// the panel entries set it last, and nothing after them touches it.
proof fn lemma_background_side(name: Seq<char>, s: ColorScheme, l: PanelLayout, p: Seq<char>, i: int, v: Seq<char>)
    requires
        i == 5 || i == 11,
        i < p.len(),
        p[i] == 'B',
        last_value(panel_entries(l), p) == Some(v),
    ensures
        value_at(apply_sets(fresh(""@), theme_entries(name, s, l)), p) == Some(v),
{
    let m = metadata_entries(name);
    let c = color_entries(s);
    lemma_after_panel_none(l, p, i);
    lemma_last_value_concat(m + c, panel_entries(l), p);
    lemma_last_value_concat(m + c + panel_entries(l), highlight_entries(l), p);
    lemma_last_value_concat(m + c + panel_entries(l) + highlight_entries(l), icon_entries(l), p);
    lemma_apply_sets_value(fresh(""@), theme_entries(name, s, l), p, v);
}

/// The panel and the menu share one background: in the generated
/// `theme.conf`, `InputPanel/Background/Margin` and `Menu/Background/Margin`
/// both hold the frame's content margins, side by side (not its shadow
/// margins).
pub proof fn lemma_background_margins(name: Seq<char>, s: ColorScheme, l: PanelLayout)
    ensures
        ({
            let t = apply_sets(fresh(""@), theme_entries(name, s, l));
            &&& value_at(t, "InputPanel/Background/Margin/Left"@) == Some(dec_int(l.content.left as int))
            &&& value_at(t, "InputPanel/Background/Margin/Top"@) == Some(dec_int(l.content.top as int))
            &&& value_at(t, "InputPanel/Background/Margin/Right"@) == Some(dec_int(l.content.right as int))
            &&& value_at(t, "InputPanel/Background/Margin/Bottom"@) == Some(dec_int(l.content.bottom as int))
            &&& value_at(t, "Menu/Background/Margin/Left"@) == Some(dec_int(l.content.left as int))
            &&& value_at(t, "Menu/Background/Margin/Top"@) == Some(dec_int(l.content.top as int))
            &&& value_at(t, "Menu/Background/Margin/Right"@) == Some(dec_int(l.content.right as int))
            &&& value_at(t, "Menu/Background/Margin/Bottom"@) == Some(dec_int(l.content.bottom as int))
        }),
{
    reveal_strlit("InputPanel/Background/Margin");
    reveal_strlit("InputPanel/Background/Margin/Left");
    reveal_strlit("InputPanel/Background/Margin/Top");
    reveal_strlit("InputPanel/Background/Margin/Right");
    reveal_strlit("InputPanel/Background/Margin/Bottom");
    reveal_strlit("Menu/Background/Margin");
    reveal_strlit("Menu/Background/Margin/Left");
    reveal_strlit("Menu/Background/Margin/Top");
    reveal_strlit("Menu/Background/Margin/Right");
    reveal_strlit("Menu/Background/Margin/Bottom");
    reveal_strlit("/Left");
    reveal_strlit("/Top");
    reveal_strlit("/Right");
    reveal_strlit("/Bottom");
    let blur_panel: Seq<Entry> = if l.blur_behind {
        seq![("InputPanel/BlurMask"@, "mask.png"@), ("InputPanel/EnableBlur"@, "True"@)]
    } else {
        Seq::empty()
    };
    let blur_menu: Seq<Entry> = if l.blur_behind {
        seq![("Menu/BlurMask"@, "mask.png"@), ("Menu/EnableBlur"@, "True"@)]
    } else {
        Seq::empty()
    };
    let a = seq![("Menu/Spacing"@, dec_int(text_margin()))] + margin_entries("InputPanel/ContentMargin"@, l.content)
        + margin_entries("Menu/ContentMargin"@, l.content) + margin_entries("InputPanel/ShadowMargin"@, l.shadow)
        + seq![("InputPanel/Background/Image"@, "panel.png"@)] + blur_panel + seq![
        ("Menu/Background/Image"@, "panel.png"@),
    ] + blur_menu;
    let ib = margin_entries("InputPanel/Background/Margin"@, l.content);
    let mb = margin_entries("Menu/Background/Margin"@, l.content);
    assert(panel_entries(l) == a + ib + mb);
    lemma_margin_sides("InputPanel/Background/Margin"@, l.content);
    lemma_margin_sides("Menu/Background/Margin"@, l.content);
    assert forall|q: Seq<char>| q.len() > 11 && q[11] == 'B' implies #[trigger] last_value(panel_entries(l), q)
        == last_value(a + ib, q) by {
        lemma_margin_none("Menu/Background/Margin"@, l.content, q, 11);
        lemma_last_value_concat(a + ib, mb, q);
    }
    assert forall|q: Seq<char>| #[trigger] last_value(ib, q) is Some implies last_value(a + ib, q) == last_value(ib, q) by {
        lemma_last_value_concat(a, ib, q);
    }
    assert forall|q: Seq<char>| #[trigger] last_value(mb, q) is Some implies last_value(panel_entries(l), q) == last_value(mb, q) by {
        lemma_last_value_concat(a + ib, mb, q);
    }
    assert("InputPanel/Background/Margin/Left"@ =~= "InputPanel/Background/Margin"@ + "/Left"@);
    lemma_background_side(name, s, l, "InputPanel/Background/Margin/Left"@, 11, dec_int(l.content.left as int));
    assert("InputPanel/Background/Margin/Top"@ =~= "InputPanel/Background/Margin"@ + "/Top"@);
    lemma_background_side(name, s, l, "InputPanel/Background/Margin/Top"@, 11, dec_int(l.content.top as int));
    assert("InputPanel/Background/Margin/Right"@ =~= "InputPanel/Background/Margin"@ + "/Right"@);
    lemma_background_side(name, s, l, "InputPanel/Background/Margin/Right"@, 11, dec_int(l.content.right as int));
    assert("InputPanel/Background/Margin/Bottom"@ =~= "InputPanel/Background/Margin"@ + "/Bottom"@);
    lemma_background_side(name, s, l, "InputPanel/Background/Margin/Bottom"@, 11, dec_int(l.content.bottom as int));
    assert("Menu/Background/Margin/Left"@ =~= "Menu/Background/Margin"@ + "/Left"@);
    lemma_background_side(name, s, l, "Menu/Background/Margin/Left"@, 5, dec_int(l.content.left as int));
    assert("Menu/Background/Margin/Top"@ =~= "Menu/Background/Margin"@ + "/Top"@);
    lemma_background_side(name, s, l, "Menu/Background/Margin/Top"@, 5, dec_int(l.content.top as int));
    assert("Menu/Background/Margin/Right"@ =~= "Menu/Background/Margin"@ + "/Right"@);
    lemma_background_side(name, s, l, "Menu/Background/Margin/Right"@, 5, dec_int(l.content.right as int));
    assert("Menu/Background/Margin/Bottom"@ =~= "Menu/Background/Margin"@ + "/Bottom"@);
    lemma_background_side(name, s, l, "Menu/Background/Margin/Bottom"@, 5, dec_int(l.content.bottom as int));
}

/// A run none of whose paths is `p` sets nothing at `p`.
proof fn lemma_entries_none(b: Seq<Entry>, p: Seq<char>)
    requires
        forall|k: int| 0 <= k < b.len() ==> (#[trigger] b[k]).0 != p,
    ensures
        last_value(b, p) is None,
    decreases b.len(),
{
    if b.len() > 0 {
        assert(b.last() == b[b.len() - 1]);
        assert forall|k: int| 0 <= k < b.len() - 1 implies (#[trigger] b.drop_last()[k]).0 != p by {
            assert(b.drop_last()[k] == b[k]);
        }
        lemma_entries_none(b.drop_last(), p);
    }
}

/// Margin entries below `path` set nothing at a path that is none of the
/// four side paths.
proof fn lemma_margin_none_by(path: Seq<char>, m: Margins, p: Seq<char>)
    requires
        path + "/Left"@ != p,
        path + "/Top"@ != p,
        path + "/Right"@ != p,
        path + "/Bottom"@ != p,
    ensures
        last_value(margin_entries(path, m), p) is None,
{
    lemma_entries_none(margin_entries(path, m), p);
}

/// The input panel color entries: the window text for candidates (set
/// twice), the selection text and background for the highlight.
proof fn lemma_colors_last(s: ColorScheme)
    ensures
        last_value(color_entries(s), "InputPanel/NormalColor"@) == Some(color_text(s.window.fg_normal)),
        last_value(color_entries(s), "InputPanel/HighlightCandidateColor"@) == Some(color_text(s.window.fg_normal)),
        last_value(color_entries(s), "InputPanel/HighlightColor"@) == Some(color_text(s.selection.fg_normal)),
        last_value(color_entries(s), "InputPanel/HighlightBackgroundColor"@) == Some(color_text(s.selection.bg_normal)),
{
    reveal_strlit("InputPanel/HighlightBackgroundColor");
    reveal_strlit("InputPanel/HighlightCandidateColor");
    reveal_strlit("InputPanel/HighlightColor");
    reveal_strlit("InputPanel/NormalColor");
    reveal_strlit("InputPanel/PageButtonAlignment");
    let es = color_entries(s);
    let d1 = es.drop_last();
    let d2 = d1.drop_last();
    let d3 = d2.drop_last();
    let d4 = d3.drop_last();
    assert(es.last() == es[6] && d1.last() == es[5] && d2.last() == es[4] && d3.last() == es[3] && d4.last() == es[2]);
    let n = "InputPanel/NormalColor"@;
    let hc = "InputPanel/HighlightCandidateColor"@;
    let h = "InputPanel/HighlightColor"@;
    let hb = "InputPanel/HighlightBackgroundColor"@;
    let pb = "InputPanel/PageButtonAlignment"@;
    assert(hc.len() != n.len() && hc.len() != h.len() && hc.len() != hb.len());
    assert(n.len() != h.len() && n.len() != hb.len());
    assert(pb.len() != h.len() && pb.len() != hb.len());
    assert(last_value(es, hc) == Some(es[6].1));
    assert(last_value(es, n) == last_value(d1, n));
    assert(last_value(d1, n) == Some(es[5].1));
    assert(last_value(es, h) == last_value(d1, h));
    assert(last_value(d1, h) == last_value(d2, h));
    assert(last_value(d2, h) == last_value(d3, h));
    assert(last_value(d3, h) == last_value(d4, h));
    assert(last_value(d4, h) == Some(es[2].1));
    assert(last_value(es, hb) == last_value(d1, hb));
    assert(last_value(d1, hb) == last_value(d2, hb));
    assert(last_value(d2, hb) == last_value(d3, hb));
    assert(last_value(d3, hb) == Some(es[3].1));
}

/// What the generated `theme.conf` holds for the panel: the content
/// margins of the background frame as the input panel's and the menu's
/// content margins, its shadow margins as the input panel's shadow margins,
/// the window text color for (highlighted) candidates, and the selection's
/// text and background colors for the highlight.
pub proof fn lemma_panel_config(name: Seq<char>, s: ColorScheme, l: PanelLayout)
    ensures
        ({
            let t = apply_sets(fresh(""@), theme_entries(name, s, l));
            &&& value_at(t, "InputPanel/ContentMargin/Left"@) == Some(dec_int(l.content.left as int))
            &&& value_at(t, "Menu/ContentMargin/Left"@) == Some(dec_int(l.content.left as int))
            &&& value_at(t, "InputPanel/ShadowMargin/Left"@) == Some(dec_int(l.shadow.left as int))
            &&& value_at(t, "InputPanel/ContentMargin/Top"@) == Some(dec_int(l.content.top as int))
            &&& value_at(t, "Menu/ContentMargin/Top"@) == Some(dec_int(l.content.top as int))
            &&& value_at(t, "InputPanel/ShadowMargin/Top"@) == Some(dec_int(l.shadow.top as int))
            &&& value_at(t, "InputPanel/ContentMargin/Right"@) == Some(dec_int(l.content.right as int))
            &&& value_at(t, "Menu/ContentMargin/Right"@) == Some(dec_int(l.content.right as int))
            &&& value_at(t, "InputPanel/ShadowMargin/Right"@) == Some(dec_int(l.shadow.right as int))
            &&& value_at(t, "InputPanel/ContentMargin/Bottom"@) == Some(dec_int(l.content.bottom as int))
            &&& value_at(t, "Menu/ContentMargin/Bottom"@) == Some(dec_int(l.content.bottom as int))
            &&& value_at(t, "InputPanel/ShadowMargin/Bottom"@) == Some(dec_int(l.shadow.bottom as int))
            &&& value_at(t, "InputPanel/NormalColor"@) == Some(color_text(s.window.fg_normal))
            &&& value_at(t, "InputPanel/HighlightCandidateColor"@) == Some(color_text(s.window.fg_normal))
            &&& value_at(t, "InputPanel/HighlightColor"@) == Some(color_text(s.selection.fg_normal))
            &&& value_at(t, "InputPanel/HighlightBackgroundColor"@) == Some(color_text(s.selection.bg_normal))
        }),
{
    lemma_sets_input_content_left(name, s, l);
    lemma_apply_sets_value(fresh(""@), theme_entries(name, s, l), "InputPanel/ContentMargin/Left"@, dec_int(l.content.left as int));
    lemma_sets_menu_content_left(name, s, l);
    lemma_apply_sets_value(fresh(""@), theme_entries(name, s, l), "Menu/ContentMargin/Left"@, dec_int(l.content.left as int));
    lemma_sets_shadow_left(name, s, l);
    lemma_apply_sets_value(fresh(""@), theme_entries(name, s, l), "InputPanel/ShadowMargin/Left"@, dec_int(l.shadow.left as int));
    lemma_sets_input_content_top(name, s, l);
    lemma_apply_sets_value(fresh(""@), theme_entries(name, s, l), "InputPanel/ContentMargin/Top"@, dec_int(l.content.top as int));
    lemma_sets_menu_content_top(name, s, l);
    lemma_apply_sets_value(fresh(""@), theme_entries(name, s, l), "Menu/ContentMargin/Top"@, dec_int(l.content.top as int));
    lemma_sets_shadow_top(name, s, l);
    lemma_apply_sets_value(fresh(""@), theme_entries(name, s, l), "InputPanel/ShadowMargin/Top"@, dec_int(l.shadow.top as int));
    lemma_sets_input_content_right(name, s, l);
    lemma_apply_sets_value(fresh(""@), theme_entries(name, s, l), "InputPanel/ContentMargin/Right"@, dec_int(l.content.right as int));
    lemma_sets_menu_content_right(name, s, l);
    lemma_apply_sets_value(fresh(""@), theme_entries(name, s, l), "Menu/ContentMargin/Right"@, dec_int(l.content.right as int));
    lemma_sets_shadow_right(name, s, l);
    lemma_apply_sets_value(fresh(""@), theme_entries(name, s, l), "InputPanel/ShadowMargin/Right"@, dec_int(l.shadow.right as int));
    lemma_sets_input_content_bottom(name, s, l);
    lemma_apply_sets_value(fresh(""@), theme_entries(name, s, l), "InputPanel/ContentMargin/Bottom"@, dec_int(l.content.bottom as int));
    lemma_sets_menu_content_bottom(name, s, l);
    lemma_apply_sets_value(fresh(""@), theme_entries(name, s, l), "Menu/ContentMargin/Bottom"@, dec_int(l.content.bottom as int));
    lemma_sets_shadow_bottom(name, s, l);
    lemma_apply_sets_value(fresh(""@), theme_entries(name, s, l), "InputPanel/ShadowMargin/Bottom"@, dec_int(l.shadow.bottom as int));
    lemma_sets_normal_color(name, s, l);
    lemma_apply_sets_value(fresh(""@), theme_entries(name, s, l), "InputPanel/NormalColor"@, color_text(s.window.fg_normal));
    lemma_sets_candidate_color(name, s, l);
    lemma_apply_sets_value(fresh(""@), theme_entries(name, s, l), "InputPanel/HighlightCandidateColor"@, color_text(s.window.fg_normal));
    lemma_sets_highlight_color(name, s, l);
    lemma_apply_sets_value(fresh(""@), theme_entries(name, s, l), "InputPanel/HighlightColor"@, color_text(s.selection.fg_normal));
    lemma_sets_highlight_background_color(name, s, l);
    lemma_apply_sets_value(fresh(""@), theme_entries(name, s, l), "InputPanel/HighlightBackgroundColor"@, color_text(s.selection.bg_normal));
}

/// The highlight entries set nothing at a path that differs from each of theirs
/// in its length or in its character at position 11.
proof fn lemma_highlight_none_11(s: ColorScheme, l: PanelLayout, p: Seq<char>)
    requires
        p.len() != 19 || p[11] != 'r',
        p.len() != 20 || p[11] != 'g',
        p.len() != 20 || p[11] != 'r',
        p.len() != 21 || p[11] != 'r',
        p.len() != 22 || p[11] != 'r',
        p.len() != 25 || p[11] != 'T',
        p.len() != 25 || p[11] != 'g',
        p.len() != 26 || p[11] != 'H',
        p.len() != 26 || p[11] != 'T',
        p.len() != 26 || p[11] != 'g',
        p.len() != 27 || p[11] != 'T',
        p.len() != 27 || p[11] != 'g',
        p.len() != 28 || p[11] != 'T',
        p.len() != 28 || p[11] != 'g',
        p.len() != 31 || p[11] != 'H',
        p.len() != 32 || p[11] != 'H',
        p.len() != 33 || p[11] != 'H',
        p.len() != 34 || p[11] != 'H',
    ensures
        last_value(highlight_entries(l), p) is None,
{
    reveal_strlit("/Bottom");
    reveal_strlit("/Left");
    reveal_strlit("/Right");
    reveal_strlit("/Top");
    reveal_strlit("InputPanel/Highlight/Image");
    reveal_strlit("InputPanel/Highlight/Margin");
    reveal_strlit("InputPanel/TextMargin");
    reveal_strlit("Menu/Highlight/Image");
    reveal_strlit("Menu/Highlight/Margin");
    reveal_strlit("Menu/TextMargin");
    let fg = color_text(s.window.fg_normal);
    let h = floored(l.highlight);
    let text = Margins { top: (h.top + text_margin()) as i64, bottom: (h.bottom + text_margin()) as i64, ..h };
    let e_hi: Seq<Entry> = seq![("InputPanel/Highlight/Image"@, "highlight.png"@), ("Menu/Highlight/Image"@, "highlight.png"@)];
    let e_ih: Seq<Entry> = margin_entries("InputPanel/Highlight/Margin"@, h);
    let e_mh: Seq<Entry> = margin_entries("Menu/Highlight/Margin"@, h);
    let e_it: Seq<Entry> = margin_entries("InputPanel/TextMargin"@, text);
    let e_mt: Seq<Entry> = margin_entries("Menu/TextMargin"@, h);
    assert(("InputPanel/Highlight/Image"@).len() != p.len() || ("InputPanel/Highlight/Image"@)[11] != p[11]);
    assert(("Menu/Highlight/Image"@).len() != p.len() || ("Menu/Highlight/Image"@)[11] != p[11]);
    assert(("InputPanel/Highlight/Margin"@ + "/Left"@).len() != p.len() || ("InputPanel/Highlight/Margin"@ + "/Left"@)[11] != p[11]);
    assert(("InputPanel/Highlight/Margin"@ + "/Top"@).len() != p.len() || ("InputPanel/Highlight/Margin"@ + "/Top"@)[11] != p[11]);
    assert(("InputPanel/Highlight/Margin"@ + "/Right"@).len() != p.len() || ("InputPanel/Highlight/Margin"@ + "/Right"@)[11] != p[11]);
    assert(("InputPanel/Highlight/Margin"@ + "/Bottom"@).len() != p.len() || ("InputPanel/Highlight/Margin"@ + "/Bottom"@)[11] != p[11]);
    assert(("Menu/Highlight/Margin"@ + "/Left"@).len() != p.len() || ("Menu/Highlight/Margin"@ + "/Left"@)[11] != p[11]);
    assert(("Menu/Highlight/Margin"@ + "/Top"@).len() != p.len() || ("Menu/Highlight/Margin"@ + "/Top"@)[11] != p[11]);
    assert(("Menu/Highlight/Margin"@ + "/Right"@).len() != p.len() || ("Menu/Highlight/Margin"@ + "/Right"@)[11] != p[11]);
    assert(("Menu/Highlight/Margin"@ + "/Bottom"@).len() != p.len() || ("Menu/Highlight/Margin"@ + "/Bottom"@)[11] != p[11]);
    assert(("InputPanel/TextMargin"@ + "/Left"@).len() != p.len() || ("InputPanel/TextMargin"@ + "/Left"@)[11] != p[11]);
    assert(("InputPanel/TextMargin"@ + "/Top"@).len() != p.len() || ("InputPanel/TextMargin"@ + "/Top"@)[11] != p[11]);
    assert(("InputPanel/TextMargin"@ + "/Right"@).len() != p.len() || ("InputPanel/TextMargin"@ + "/Right"@)[11] != p[11]);
    assert(("InputPanel/TextMargin"@ + "/Bottom"@).len() != p.len() || ("InputPanel/TextMargin"@ + "/Bottom"@)[11] != p[11]);
    assert(("Menu/TextMargin"@ + "/Left"@).len() != p.len() || ("Menu/TextMargin"@ + "/Left"@)[11] != p[11]);
    assert(("Menu/TextMargin"@ + "/Top"@).len() != p.len() || ("Menu/TextMargin"@ + "/Top"@)[11] != p[11]);
    assert(("Menu/TextMargin"@ + "/Right"@).len() != p.len() || ("Menu/TextMargin"@ + "/Right"@)[11] != p[11]);
    assert(("Menu/TextMargin"@ + "/Bottom"@).len() != p.len() || ("Menu/TextMargin"@ + "/Bottom"@)[11] != p[11]);
    lemma_entries_none(e_hi, p);
    lemma_margin_none_by("InputPanel/Highlight/Margin"@, h, p);
    lemma_margin_none_by("Menu/Highlight/Margin"@, h, p);
    lemma_margin_none_by("InputPanel/TextMargin"@, text, p);
    lemma_margin_none_by("Menu/TextMargin"@, h, p);
    assert(highlight_entries(l) == e_hi + e_ih + e_mh + e_it + e_mt);
    lemma_last_value_concat(e_hi + e_ih + e_mh + e_it, e_mt, p);
    lemma_last_value_concat(e_hi + e_ih + e_mh, e_it, p);
    lemma_last_value_concat(e_hi + e_ih, e_mh, p);
    lemma_last_value_concat(e_hi, e_ih, p);
}

/// The highlight entries set nothing at a path that differs from each of theirs
/// in its length or in its character at position 20.
proof fn lemma_highlight_none_20(s: ColorScheme, l: PanelLayout, p: Seq<char>)
    requires
        p.len() != 19,
        p.len() != 20,
        p.len() != 21 || p[20] != 't',
        p.len() != 22 || p[20] != 'o',
        p.len() != 25 || p[20] != 'n',
        p.len() != 26 || p[20] != '/',
        p.len() != 26 || p[20] != 'n',
        p.len() != 27 || p[20] != 'n',
        p.len() != 28 || p[20] != 'n',
        p.len() != 31 || p[20] != '/',
        p.len() != 32 || p[20] != '/',
        p.len() != 33 || p[20] != '/',
        p.len() != 34 || p[20] != '/',
    ensures
        last_value(highlight_entries(l), p) is None,
{
    reveal_strlit("/Bottom");
    reveal_strlit("/Left");
    reveal_strlit("/Right");
    reveal_strlit("/Top");
    reveal_strlit("InputPanel/Highlight/Image");
    reveal_strlit("InputPanel/Highlight/Margin");
    reveal_strlit("InputPanel/TextMargin");
    reveal_strlit("Menu/Highlight/Image");
    reveal_strlit("Menu/Highlight/Margin");
    reveal_strlit("Menu/TextMargin");
    let fg = color_text(s.window.fg_normal);
    let h = floored(l.highlight);
    let text = Margins { top: (h.top + text_margin()) as i64, bottom: (h.bottom + text_margin()) as i64, ..h };
    let e_hi: Seq<Entry> = seq![("InputPanel/Highlight/Image"@, "highlight.png"@), ("Menu/Highlight/Image"@, "highlight.png"@)];
    let e_ih: Seq<Entry> = margin_entries("InputPanel/Highlight/Margin"@, h);
    let e_mh: Seq<Entry> = margin_entries("Menu/Highlight/Margin"@, h);
    let e_it: Seq<Entry> = margin_entries("InputPanel/TextMargin"@, text);
    let e_mt: Seq<Entry> = margin_entries("Menu/TextMargin"@, h);
    assert(("InputPanel/Highlight/Image"@).len() != p.len() || ("InputPanel/Highlight/Image"@)[20] != p[20]);
    assert(("Menu/Highlight/Image"@).len() != p.len());
    assert(("InputPanel/Highlight/Margin"@ + "/Left"@).len() != p.len() || ("InputPanel/Highlight/Margin"@ + "/Left"@)[20] != p[20]);
    assert(("InputPanel/Highlight/Margin"@ + "/Top"@).len() != p.len() || ("InputPanel/Highlight/Margin"@ + "/Top"@)[20] != p[20]);
    assert(("InputPanel/Highlight/Margin"@ + "/Right"@).len() != p.len() || ("InputPanel/Highlight/Margin"@ + "/Right"@)[20] != p[20]);
    assert(("InputPanel/Highlight/Margin"@ + "/Bottom"@).len() != p.len() || ("InputPanel/Highlight/Margin"@ + "/Bottom"@)[20] != p[20]);
    assert(("Menu/Highlight/Margin"@ + "/Left"@).len() != p.len() || ("Menu/Highlight/Margin"@ + "/Left"@)[20] != p[20]);
    assert(("Menu/Highlight/Margin"@ + "/Top"@).len() != p.len() || ("Menu/Highlight/Margin"@ + "/Top"@)[20] != p[20]);
    assert(("Menu/Highlight/Margin"@ + "/Right"@).len() != p.len() || ("Menu/Highlight/Margin"@ + "/Right"@)[20] != p[20]);
    assert(("Menu/Highlight/Margin"@ + "/Bottom"@).len() != p.len() || ("Menu/Highlight/Margin"@ + "/Bottom"@)[20] != p[20]);
    assert(("InputPanel/TextMargin"@ + "/Left"@).len() != p.len() || ("InputPanel/TextMargin"@ + "/Left"@)[20] != p[20]);
    assert(("InputPanel/TextMargin"@ + "/Top"@).len() != p.len() || ("InputPanel/TextMargin"@ + "/Top"@)[20] != p[20]);
    assert(("InputPanel/TextMargin"@ + "/Right"@).len() != p.len() || ("InputPanel/TextMargin"@ + "/Right"@)[20] != p[20]);
    assert(("InputPanel/TextMargin"@ + "/Bottom"@).len() != p.len() || ("InputPanel/TextMargin"@ + "/Bottom"@)[20] != p[20]);
    assert(("Menu/TextMargin"@ + "/Left"@).len() != p.len());
    assert(("Menu/TextMargin"@ + "/Top"@).len() != p.len());
    assert(("Menu/TextMargin"@ + "/Right"@).len() != p.len() || ("Menu/TextMargin"@ + "/Right"@)[20] != p[20]);
    assert(("Menu/TextMargin"@ + "/Bottom"@).len() != p.len() || ("Menu/TextMargin"@ + "/Bottom"@)[20] != p[20]);
    lemma_entries_none(e_hi, p);
    lemma_margin_none_by("InputPanel/Highlight/Margin"@, h, p);
    lemma_margin_none_by("Menu/Highlight/Margin"@, h, p);
    lemma_margin_none_by("InputPanel/TextMargin"@, text, p);
    lemma_margin_none_by("Menu/TextMargin"@, h, p);
    assert(highlight_entries(l) == e_hi + e_ih + e_mh + e_it + e_mt);
    lemma_last_value_concat(e_hi + e_ih + e_mh + e_it, e_mt, p);
    lemma_last_value_concat(e_hi + e_ih + e_mh, e_it, p);
    lemma_last_value_concat(e_hi + e_ih, e_mh, p);
    lemma_last_value_concat(e_hi, e_ih, p);
}

/// The icons entries set nothing at a path that differs from each of theirs
/// in its length or in its character at position 11.
proof fn lemma_icons_none_11(s: ColorScheme, l: PanelLayout, p: Seq<char>)
    requires
        p.len() != 18 || p[11] != 'u',
        p.len() != 19 || p[11] != 'o',
        p.len() != 20 || p[11] != 't',
        p.len() != 25 || p[11] != 'N',
        p.len() != 25 || p[11] != 'P',
    ensures
        last_value(icon_entries(l), p) is None,
{
    reveal_strlit("/Bottom");
    reveal_strlit("/Left");
    reveal_strlit("/Right");
    reveal_strlit("/Top");
    reveal_strlit("InputPanel/NextPage/Image");
    reveal_strlit("InputPanel/PrevPage/Image");
    reveal_strlit("Menu/CheckBox/Image");
    reveal_strlit("Menu/Separator/Image");
    reveal_strlit("Menu/SubMenu/Image");
    let fg = color_text(s.window.fg_normal);
    let h = floored(l.highlight);
    let text = Margins { top: (h.top + text_margin()) as i64, bottom: (h.bottom + text_margin()) as i64, ..h };
    let e_pn: Seq<Entry> = if l.prev_next { seq![("InputPanel/PrevPage/Image"@, "prev.png"@), ("InputPanel/NextPage/Image"@, "next.png"@)] } else { Seq::empty() };
    let e_ar: Seq<Entry> = if l.arrow { seq![("Menu/SubMenu/Image"@, "arrow.png"@)] } else { Seq::empty() };
    let e_ra: Seq<Entry> = if l.radio { seq![("Menu/CheckBox/Image"@, "radio.png"@)] } else { Seq::empty() };
    let e_li: Seq<Entry> = if l.line { seq![("Menu/Separator/Image"@, "line.png"@)] } else { Seq::empty() };
    assert(("InputPanel/PrevPage/Image"@).len() != p.len() || ("InputPanel/PrevPage/Image"@)[11] != p[11]);
    assert(("InputPanel/NextPage/Image"@).len() != p.len() || ("InputPanel/NextPage/Image"@)[11] != p[11]);
    assert(("Menu/SubMenu/Image"@).len() != p.len() || ("Menu/SubMenu/Image"@)[11] != p[11]);
    assert(("Menu/CheckBox/Image"@).len() != p.len() || ("Menu/CheckBox/Image"@)[11] != p[11]);
    assert(("Menu/Separator/Image"@).len() != p.len() || ("Menu/Separator/Image"@)[11] != p[11]);
    lemma_entries_none(e_pn, p);
    lemma_entries_none(e_ar, p);
    lemma_entries_none(e_ra, p);
    lemma_entries_none(e_li, p);
    assert(icon_entries(l) == e_pn + e_ar + e_ra + e_li);
    lemma_last_value_concat(e_pn + e_ar + e_ra, e_li, p);
    lemma_last_value_concat(e_pn + e_ar, e_ra, p);
    lemma_last_value_concat(e_pn, e_ar, p);
}

/// The panel entries set nothing at a path that differs from each of theirs
/// in its length or in its character at position 11.
proof fn lemma_panel_none_11(s: ColorScheme, l: PanelLayout, p: Seq<char>)
    requires
        p.len() != 12 || p[11] != 'g',
        p.len() != 13 || p[11] != 's',
        p.len() != 15 || p[11] != 'B',
        p.len() != 19 || p[11] != 'B',
        p.len() != 21 || p[11] != 'E',
        p.len() != 21 || p[11] != 'o',
        p.len() != 22 || p[11] != 't',
        p.len() != 23 || p[11] != 't',
        p.len() != 24 || p[11] != 't',
        p.len() != 25 || p[11] != 't',
        p.len() != 26 || p[11] != 'o',
        p.len() != 27 || p[11] != 'B',
        p.len() != 27 || p[11] != 'S',
        p.len() != 27 || p[11] != 'o',
        p.len() != 28 || p[11] != 'C',
        p.len() != 28 || p[11] != 'S',
        p.len() != 28 || p[11] != 'o',
        p.len() != 29 || p[11] != 'C',
        p.len() != 29 || p[11] != 'S',
        p.len() != 29 || p[11] != 'o',
        p.len() != 30 || p[11] != 'C',
        p.len() != 30 || p[11] != 'S',
        p.len() != 31 || p[11] != 'C',
        p.len() != 32 || p[11] != 'B',
        p.len() != 33 || p[11] != 'B',
        p.len() != 34 || p[11] != 'B',
        p.len() != 35 || p[11] != 'B',
    ensures
        last_value(panel_entries(l), p) is None,
{
    reveal_strlit("/Bottom");
    reveal_strlit("/Left");
    reveal_strlit("/Right");
    reveal_strlit("/Top");
    reveal_strlit("InputPanel/Background/Image");
    reveal_strlit("InputPanel/Background/Margin");
    reveal_strlit("InputPanel/BlurMask");
    reveal_strlit("InputPanel/ContentMargin");
    reveal_strlit("InputPanel/EnableBlur");
    reveal_strlit("InputPanel/ShadowMargin");
    reveal_strlit("Menu/Background/Image");
    reveal_strlit("Menu/Background/Margin");
    reveal_strlit("Menu/BlurMask");
    reveal_strlit("Menu/ContentMargin");
    reveal_strlit("Menu/EnableBlur");
    reveal_strlit("Menu/Spacing");
    let fg = color_text(s.window.fg_normal);
    let h = floored(l.highlight);
    let text = Margins { top: (h.top + text_margin()) as i64, bottom: (h.bottom + text_margin()) as i64, ..h };
    let e_sp: Seq<Entry> = seq![("Menu/Spacing"@, dec_int(text_margin()))];
    let e_ic: Seq<Entry> = margin_entries("InputPanel/ContentMargin"@, l.content);
    let e_mc: Seq<Entry> = margin_entries("Menu/ContentMargin"@, l.content);
    let e_is: Seq<Entry> = margin_entries("InputPanel/ShadowMargin"@, l.shadow);
    let e_img: Seq<Entry> = seq![("InputPanel/Background/Image"@, "panel.png"@)];
    let e_bp: Seq<Entry> = if l.blur_behind { seq![("InputPanel/BlurMask"@, "mask.png"@), ("InputPanel/EnableBlur"@, "True"@)] } else { Seq::empty() };
    let e_mimg: Seq<Entry> = seq![("Menu/Background/Image"@, "panel.png"@)];
    let e_bm: Seq<Entry> = if l.blur_behind { seq![("Menu/BlurMask"@, "mask.png"@), ("Menu/EnableBlur"@, "True"@)] } else { Seq::empty() };
    let e_ib: Seq<Entry> = margin_entries("InputPanel/Background/Margin"@, l.content);
    let e_mb: Seq<Entry> = margin_entries("Menu/Background/Margin"@, l.content);
    assert(("Menu/Spacing"@).len() != p.len() || ("Menu/Spacing"@)[11] != p[11]);
    assert(("InputPanel/ContentMargin"@ + "/Left"@).len() != p.len() || ("InputPanel/ContentMargin"@ + "/Left"@)[11] != p[11]);
    assert(("InputPanel/ContentMargin"@ + "/Top"@).len() != p.len() || ("InputPanel/ContentMargin"@ + "/Top"@)[11] != p[11]);
    assert(("InputPanel/ContentMargin"@ + "/Right"@).len() != p.len() || ("InputPanel/ContentMargin"@ + "/Right"@)[11] != p[11]);
    assert(("InputPanel/ContentMargin"@ + "/Bottom"@).len() != p.len() || ("InputPanel/ContentMargin"@ + "/Bottom"@)[11] != p[11]);
    assert(("Menu/ContentMargin"@ + "/Left"@).len() != p.len() || ("Menu/ContentMargin"@ + "/Left"@)[11] != p[11]);
    assert(("Menu/ContentMargin"@ + "/Top"@).len() != p.len() || ("Menu/ContentMargin"@ + "/Top"@)[11] != p[11]);
    assert(("Menu/ContentMargin"@ + "/Right"@).len() != p.len() || ("Menu/ContentMargin"@ + "/Right"@)[11] != p[11]);
    assert(("Menu/ContentMargin"@ + "/Bottom"@).len() != p.len() || ("Menu/ContentMargin"@ + "/Bottom"@)[11] != p[11]);
    assert(("InputPanel/ShadowMargin"@ + "/Left"@).len() != p.len() || ("InputPanel/ShadowMargin"@ + "/Left"@)[11] != p[11]);
    assert(("InputPanel/ShadowMargin"@ + "/Top"@).len() != p.len() || ("InputPanel/ShadowMargin"@ + "/Top"@)[11] != p[11]);
    assert(("InputPanel/ShadowMargin"@ + "/Right"@).len() != p.len() || ("InputPanel/ShadowMargin"@ + "/Right"@)[11] != p[11]);
    assert(("InputPanel/ShadowMargin"@ + "/Bottom"@).len() != p.len() || ("InputPanel/ShadowMargin"@ + "/Bottom"@)[11] != p[11]);
    assert(("InputPanel/Background/Image"@).len() != p.len() || ("InputPanel/Background/Image"@)[11] != p[11]);
    assert(("InputPanel/BlurMask"@).len() != p.len() || ("InputPanel/BlurMask"@)[11] != p[11]);
    assert(("InputPanel/EnableBlur"@).len() != p.len() || ("InputPanel/EnableBlur"@)[11] != p[11]);
    assert(("Menu/Background/Image"@).len() != p.len() || ("Menu/Background/Image"@)[11] != p[11]);
    assert(("Menu/BlurMask"@).len() != p.len() || ("Menu/BlurMask"@)[11] != p[11]);
    assert(("Menu/EnableBlur"@).len() != p.len() || ("Menu/EnableBlur"@)[11] != p[11]);
    assert(("InputPanel/Background/Margin"@ + "/Left"@).len() != p.len() || ("InputPanel/Background/Margin"@ + "/Left"@)[11] != p[11]);
    assert(("InputPanel/Background/Margin"@ + "/Top"@).len() != p.len() || ("InputPanel/Background/Margin"@ + "/Top"@)[11] != p[11]);
    assert(("InputPanel/Background/Margin"@ + "/Right"@).len() != p.len() || ("InputPanel/Background/Margin"@ + "/Right"@)[11] != p[11]);
    assert(("InputPanel/Background/Margin"@ + "/Bottom"@).len() != p.len() || ("InputPanel/Background/Margin"@ + "/Bottom"@)[11] != p[11]);
    assert(("Menu/Background/Margin"@ + "/Left"@).len() != p.len() || ("Menu/Background/Margin"@ + "/Left"@)[11] != p[11]);
    assert(("Menu/Background/Margin"@ + "/Top"@).len() != p.len() || ("Menu/Background/Margin"@ + "/Top"@)[11] != p[11]);
    assert(("Menu/Background/Margin"@ + "/Right"@).len() != p.len() || ("Menu/Background/Margin"@ + "/Right"@)[11] != p[11]);
    assert(("Menu/Background/Margin"@ + "/Bottom"@).len() != p.len() || ("Menu/Background/Margin"@ + "/Bottom"@)[11] != p[11]);
    lemma_entries_none(e_sp, p);
    lemma_margin_none_by("InputPanel/ContentMargin"@, l.content, p);
    lemma_margin_none_by("Menu/ContentMargin"@, l.content, p);
    lemma_margin_none_by("InputPanel/ShadowMargin"@, l.shadow, p);
    lemma_entries_none(e_img, p);
    lemma_entries_none(e_bp, p);
    lemma_entries_none(e_mimg, p);
    lemma_entries_none(e_bm, p);
    lemma_margin_none_by("InputPanel/Background/Margin"@, l.content, p);
    lemma_margin_none_by("Menu/Background/Margin"@, l.content, p);
    assert(panel_entries(l) == e_sp + e_ic + e_mc + e_is + e_img + e_bp + e_mimg + e_bm + e_ib + e_mb);
    lemma_last_value_concat(e_sp + e_ic + e_mc + e_is + e_img + e_bp + e_mimg + e_bm + e_ib, e_mb, p);
    lemma_last_value_concat(e_sp + e_ic + e_mc + e_is + e_img + e_bp + e_mimg + e_bm, e_ib, p);
    lemma_last_value_concat(e_sp + e_ic + e_mc + e_is + e_img + e_bp + e_mimg, e_bm, p);
    lemma_last_value_concat(e_sp + e_ic + e_mc + e_is + e_img + e_bp, e_mimg, p);
    lemma_last_value_concat(e_sp + e_ic + e_mc + e_is + e_img, e_bp, p);
    lemma_last_value_concat(e_sp + e_ic + e_mc + e_is, e_img, p);
    lemma_last_value_concat(e_sp + e_ic + e_mc, e_is, p);
    lemma_last_value_concat(e_sp + e_ic, e_mc, p);
    lemma_last_value_concat(e_sp, e_ic, p);
}

/// The generated entries set `InputPanel/ContentMargin/Left` last to this value.
proof fn lemma_sets_input_content_left(name: Seq<char>, s: ColorScheme, l: PanelLayout)
    ensures
        last_value(theme_entries(name, s, l), "InputPanel/ContentMargin/Left"@) == Some(dec_int(l.content.left as int)),
{
    reveal_strlit("/Bottom");
    reveal_strlit("/Left");
    reveal_strlit("/Right");
    reveal_strlit("/Top");
    reveal_strlit("InputPanel/Background/Image");
    reveal_strlit("InputPanel/Background/Margin");
    reveal_strlit("InputPanel/BlurMask");
    reveal_strlit("InputPanel/ContentMargin");
    reveal_strlit("InputPanel/ContentMargin/Left");
    reveal_strlit("InputPanel/EnableBlur");
    reveal_strlit("InputPanel/ShadowMargin");
    reveal_strlit("Menu/Background/Image");
    reveal_strlit("Menu/Background/Margin");
    reveal_strlit("Menu/BlurMask");
    reveal_strlit("Menu/ContentMargin");
    reveal_strlit("Menu/EnableBlur");
    let fg = color_text(s.window.fg_normal);
    let h = floored(l.highlight);
    let text = Margins { top: (h.top + text_margin()) as i64, bottom: (h.bottom + text_margin()) as i64, ..h };
    lemma_highlight_none_11(s, l, "InputPanel/ContentMargin/Left"@);
    lemma_icons_none_11(s, l, "InputPanel/ContentMargin/Left"@);
    let e_sp: Seq<Entry> = seq![("Menu/Spacing"@, dec_int(text_margin()))];
    let e_ic: Seq<Entry> = margin_entries("InputPanel/ContentMargin"@, l.content);
    let e_mc: Seq<Entry> = margin_entries("Menu/ContentMargin"@, l.content);
    let e_is: Seq<Entry> = margin_entries("InputPanel/ShadowMargin"@, l.shadow);
    let e_img: Seq<Entry> = seq![("InputPanel/Background/Image"@, "panel.png"@)];
    let e_bp: Seq<Entry> = if l.blur_behind { seq![("InputPanel/BlurMask"@, "mask.png"@), ("InputPanel/EnableBlur"@, "True"@)] } else { Seq::empty() };
    let e_mimg: Seq<Entry> = seq![("Menu/Background/Image"@, "panel.png"@)];
    let e_bm: Seq<Entry> = if l.blur_behind { seq![("Menu/BlurMask"@, "mask.png"@), ("Menu/EnableBlur"@, "True"@)] } else { Seq::empty() };
    let e_ib: Seq<Entry> = margin_entries("InputPanel/Background/Margin"@, l.content);
    let e_mb: Seq<Entry> = margin_entries("Menu/Background/Margin"@, l.content);
    assert(("Menu/ContentMargin"@ + "/Left"@).len() != ("InputPanel/ContentMargin/Left"@).len());
    assert(("Menu/ContentMargin"@ + "/Top"@).len() != ("InputPanel/ContentMargin/Left"@).len());
    assert(("Menu/ContentMargin"@ + "/Right"@).len() != ("InputPanel/ContentMargin/Left"@).len());
    assert(("Menu/ContentMargin"@ + "/Bottom"@).len() != ("InputPanel/ContentMargin/Left"@).len());
    assert(("InputPanel/ShadowMargin"@ + "/Left"@).len() != ("InputPanel/ContentMargin/Left"@).len());
    assert(("InputPanel/ShadowMargin"@ + "/Top"@).len() != ("InputPanel/ContentMargin/Left"@).len());
    assert(("InputPanel/ShadowMargin"@ + "/Right"@)[11] != ("InputPanel/ContentMargin/Left"@)[11]);
    assert(("InputPanel/ShadowMargin"@ + "/Bottom"@).len() != ("InputPanel/ContentMargin/Left"@).len());
    assert(("InputPanel/Background/Image"@).len() != ("InputPanel/ContentMargin/Left"@).len());
    assert(("InputPanel/BlurMask"@).len() != ("InputPanel/ContentMargin/Left"@).len());
    assert(("InputPanel/EnableBlur"@).len() != ("InputPanel/ContentMargin/Left"@).len());
    assert(("Menu/Background/Image"@).len() != ("InputPanel/ContentMargin/Left"@).len());
    assert(("Menu/BlurMask"@).len() != ("InputPanel/ContentMargin/Left"@).len());
    assert(("Menu/EnableBlur"@).len() != ("InputPanel/ContentMargin/Left"@).len());
    assert(("InputPanel/Background/Margin"@ + "/Left"@).len() != ("InputPanel/ContentMargin/Left"@).len());
    assert(("InputPanel/Background/Margin"@ + "/Top"@).len() != ("InputPanel/ContentMargin/Left"@).len());
    assert(("InputPanel/Background/Margin"@ + "/Right"@).len() != ("InputPanel/ContentMargin/Left"@).len());
    assert(("InputPanel/Background/Margin"@ + "/Bottom"@).len() != ("InputPanel/ContentMargin/Left"@).len());
    assert(("Menu/Background/Margin"@ + "/Left"@).len() != ("InputPanel/ContentMargin/Left"@).len());
    assert(("Menu/Background/Margin"@ + "/Top"@).len() != ("InputPanel/ContentMargin/Left"@).len());
    assert(("Menu/Background/Margin"@ + "/Right"@).len() != ("InputPanel/ContentMargin/Left"@).len());
    assert(("Menu/Background/Margin"@ + "/Bottom"@)[0] != ("InputPanel/ContentMargin/Left"@)[0]);
    lemma_margin_none_by("Menu/ContentMargin"@, l.content, "InputPanel/ContentMargin/Left"@);
    lemma_margin_none_by("InputPanel/ShadowMargin"@, l.shadow, "InputPanel/ContentMargin/Left"@);
    lemma_entries_none(e_img, "InputPanel/ContentMargin/Left"@);
    lemma_entries_none(e_bp, "InputPanel/ContentMargin/Left"@);
    lemma_entries_none(e_mimg, "InputPanel/ContentMargin/Left"@);
    lemma_entries_none(e_bm, "InputPanel/ContentMargin/Left"@);
    lemma_margin_none_by("InputPanel/Background/Margin"@, l.content, "InputPanel/ContentMargin/Left"@);
    lemma_margin_none_by("Menu/Background/Margin"@, l.content, "InputPanel/ContentMargin/Left"@);
    lemma_margin_sides("InputPanel/ContentMargin"@, l.content);
    assert("InputPanel/ContentMargin/Left"@ =~= "InputPanel/ContentMargin"@ + "/Left"@);
    assert(panel_entries(l) == e_sp + e_ic + e_mc + e_is + e_img + e_bp + e_mimg + e_bm + e_ib + e_mb);
    lemma_last_value_concat(e_sp + e_ic + e_mc + e_is + e_img + e_bp + e_mimg + e_bm + e_ib, e_mb, "InputPanel/ContentMargin/Left"@);
    lemma_last_value_concat(e_sp + e_ic + e_mc + e_is + e_img + e_bp + e_mimg + e_bm, e_ib, "InputPanel/ContentMargin/Left"@);
    lemma_last_value_concat(e_sp + e_ic + e_mc + e_is + e_img + e_bp + e_mimg, e_bm, "InputPanel/ContentMargin/Left"@);
    lemma_last_value_concat(e_sp + e_ic + e_mc + e_is + e_img + e_bp, e_mimg, "InputPanel/ContentMargin/Left"@);
    lemma_last_value_concat(e_sp + e_ic + e_mc + e_is + e_img, e_bp, "InputPanel/ContentMargin/Left"@);
    lemma_last_value_concat(e_sp + e_ic + e_mc + e_is, e_img, "InputPanel/ContentMargin/Left"@);
    lemma_last_value_concat(e_sp + e_ic + e_mc, e_is, "InputPanel/ContentMargin/Left"@);
    lemma_last_value_concat(e_sp + e_ic, e_mc, "InputPanel/ContentMargin/Left"@);
    lemma_last_value_concat(e_sp, e_ic, "InputPanel/ContentMargin/Left"@);
    lemma_last_value_concat(metadata_entries(name) + color_entries(s) + panel_entries(l) + highlight_entries(l), icon_entries(l), "InputPanel/ContentMargin/Left"@);
    lemma_last_value_concat(metadata_entries(name) + color_entries(s) + panel_entries(l), highlight_entries(l), "InputPanel/ContentMargin/Left"@);
    lemma_last_value_concat(metadata_entries(name) + color_entries(s), panel_entries(l), "InputPanel/ContentMargin/Left"@);
}

/// The generated entries set `Menu/ContentMargin/Left` last to this value.
proof fn lemma_sets_menu_content_left(name: Seq<char>, s: ColorScheme, l: PanelLayout)
    ensures
        last_value(theme_entries(name, s, l), "Menu/ContentMargin/Left"@) == Some(dec_int(l.content.left as int)),
{
    reveal_strlit("/Bottom");
    reveal_strlit("/Left");
    reveal_strlit("/Right");
    reveal_strlit("/Top");
    reveal_strlit("InputPanel/Background/Image");
    reveal_strlit("InputPanel/Background/Margin");
    reveal_strlit("InputPanel/BlurMask");
    reveal_strlit("InputPanel/EnableBlur");
    reveal_strlit("InputPanel/ShadowMargin");
    reveal_strlit("Menu/Background/Image");
    reveal_strlit("Menu/Background/Margin");
    reveal_strlit("Menu/BlurMask");
    reveal_strlit("Menu/ContentMargin");
    reveal_strlit("Menu/ContentMargin/Left");
    reveal_strlit("Menu/EnableBlur");
    let fg = color_text(s.window.fg_normal);
    let h = floored(l.highlight);
    let text = Margins { top: (h.top + text_margin()) as i64, bottom: (h.bottom + text_margin()) as i64, ..h };
    lemma_highlight_none_11(s, l, "Menu/ContentMargin/Left"@);
    lemma_icons_none_11(s, l, "Menu/ContentMargin/Left"@);
    let e_sp: Seq<Entry> = seq![("Menu/Spacing"@, dec_int(text_margin()))];
    let e_ic: Seq<Entry> = margin_entries("InputPanel/ContentMargin"@, l.content);
    let e_mc: Seq<Entry> = margin_entries("Menu/ContentMargin"@, l.content);
    let e_is: Seq<Entry> = margin_entries("InputPanel/ShadowMargin"@, l.shadow);
    let e_img: Seq<Entry> = seq![("InputPanel/Background/Image"@, "panel.png"@)];
    let e_bp: Seq<Entry> = if l.blur_behind { seq![("InputPanel/BlurMask"@, "mask.png"@), ("InputPanel/EnableBlur"@, "True"@)] } else { Seq::empty() };
    let e_mimg: Seq<Entry> = seq![("Menu/Background/Image"@, "panel.png"@)];
    let e_bm: Seq<Entry> = if l.blur_behind { seq![("Menu/BlurMask"@, "mask.png"@), ("Menu/EnableBlur"@, "True"@)] } else { Seq::empty() };
    let e_ib: Seq<Entry> = margin_entries("InputPanel/Background/Margin"@, l.content);
    let e_mb: Seq<Entry> = margin_entries("Menu/Background/Margin"@, l.content);
    assert(("InputPanel/ShadowMargin"@ + "/Left"@).len() != ("Menu/ContentMargin/Left"@).len());
    assert(("InputPanel/ShadowMargin"@ + "/Top"@).len() != ("Menu/ContentMargin/Left"@).len());
    assert(("InputPanel/ShadowMargin"@ + "/Right"@).len() != ("Menu/ContentMargin/Left"@).len());
    assert(("InputPanel/ShadowMargin"@ + "/Bottom"@).len() != ("Menu/ContentMargin/Left"@).len());
    assert(("InputPanel/Background/Image"@).len() != ("Menu/ContentMargin/Left"@).len());
    assert(("InputPanel/BlurMask"@).len() != ("Menu/ContentMargin/Left"@).len());
    assert(("InputPanel/EnableBlur"@).len() != ("Menu/ContentMargin/Left"@).len());
    assert(("Menu/Background/Image"@).len() != ("Menu/ContentMargin/Left"@).len());
    assert(("Menu/BlurMask"@).len() != ("Menu/ContentMargin/Left"@).len());
    assert(("Menu/EnableBlur"@).len() != ("Menu/ContentMargin/Left"@).len());
    assert(("InputPanel/Background/Margin"@ + "/Left"@).len() != ("Menu/ContentMargin/Left"@).len());
    assert(("InputPanel/Background/Margin"@ + "/Top"@).len() != ("Menu/ContentMargin/Left"@).len());
    assert(("InputPanel/Background/Margin"@ + "/Right"@).len() != ("Menu/ContentMargin/Left"@).len());
    assert(("InputPanel/Background/Margin"@ + "/Bottom"@).len() != ("Menu/ContentMargin/Left"@).len());
    assert(("Menu/Background/Margin"@ + "/Left"@).len() != ("Menu/ContentMargin/Left"@).len());
    assert(("Menu/Background/Margin"@ + "/Top"@).len() != ("Menu/ContentMargin/Left"@).len());
    assert(("Menu/Background/Margin"@ + "/Right"@).len() != ("Menu/ContentMargin/Left"@).len());
    assert(("Menu/Background/Margin"@ + "/Bottom"@).len() != ("Menu/ContentMargin/Left"@).len());
    lemma_margin_none_by("InputPanel/ShadowMargin"@, l.shadow, "Menu/ContentMargin/Left"@);
    lemma_entries_none(e_img, "Menu/ContentMargin/Left"@);
    lemma_entries_none(e_bp, "Menu/ContentMargin/Left"@);
    lemma_entries_none(e_mimg, "Menu/ContentMargin/Left"@);
    lemma_entries_none(e_bm, "Menu/ContentMargin/Left"@);
    lemma_margin_none_by("InputPanel/Background/Margin"@, l.content, "Menu/ContentMargin/Left"@);
    lemma_margin_none_by("Menu/Background/Margin"@, l.content, "Menu/ContentMargin/Left"@);
    lemma_margin_sides("Menu/ContentMargin"@, l.content);
    assert("Menu/ContentMargin/Left"@ =~= "Menu/ContentMargin"@ + "/Left"@);
    assert(panel_entries(l) == e_sp + e_ic + e_mc + e_is + e_img + e_bp + e_mimg + e_bm + e_ib + e_mb);
    lemma_last_value_concat(e_sp + e_ic + e_mc + e_is + e_img + e_bp + e_mimg + e_bm + e_ib, e_mb, "Menu/ContentMargin/Left"@);
    lemma_last_value_concat(e_sp + e_ic + e_mc + e_is + e_img + e_bp + e_mimg + e_bm, e_ib, "Menu/ContentMargin/Left"@);
    lemma_last_value_concat(e_sp + e_ic + e_mc + e_is + e_img + e_bp + e_mimg, e_bm, "Menu/ContentMargin/Left"@);
    lemma_last_value_concat(e_sp + e_ic + e_mc + e_is + e_img + e_bp, e_mimg, "Menu/ContentMargin/Left"@);
    lemma_last_value_concat(e_sp + e_ic + e_mc + e_is + e_img, e_bp, "Menu/ContentMargin/Left"@);
    lemma_last_value_concat(e_sp + e_ic + e_mc + e_is, e_img, "Menu/ContentMargin/Left"@);
    lemma_last_value_concat(e_sp + e_ic + e_mc, e_is, "Menu/ContentMargin/Left"@);
    lemma_last_value_concat(e_sp + e_ic, e_mc, "Menu/ContentMargin/Left"@);
    lemma_last_value_concat(metadata_entries(name) + color_entries(s) + panel_entries(l) + highlight_entries(l), icon_entries(l), "Menu/ContentMargin/Left"@);
    lemma_last_value_concat(metadata_entries(name) + color_entries(s) + panel_entries(l), highlight_entries(l), "Menu/ContentMargin/Left"@);
    lemma_last_value_concat(metadata_entries(name) + color_entries(s), panel_entries(l), "Menu/ContentMargin/Left"@);
}

/// The generated entries set `InputPanel/ShadowMargin/Left` last to this value.
proof fn lemma_sets_shadow_left(name: Seq<char>, s: ColorScheme, l: PanelLayout)
    ensures
        last_value(theme_entries(name, s, l), "InputPanel/ShadowMargin/Left"@) == Some(dec_int(l.shadow.left as int)),
{
    reveal_strlit("/Bottom");
    reveal_strlit("/Left");
    reveal_strlit("/Right");
    reveal_strlit("/Top");
    reveal_strlit("InputPanel/Background/Image");
    reveal_strlit("InputPanel/Background/Margin");
    reveal_strlit("InputPanel/BlurMask");
    reveal_strlit("InputPanel/EnableBlur");
    reveal_strlit("InputPanel/ShadowMargin");
    reveal_strlit("InputPanel/ShadowMargin/Left");
    reveal_strlit("Menu/Background/Image");
    reveal_strlit("Menu/Background/Margin");
    reveal_strlit("Menu/BlurMask");
    reveal_strlit("Menu/EnableBlur");
    let fg = color_text(s.window.fg_normal);
    let h = floored(l.highlight);
    let text = Margins { top: (h.top + text_margin()) as i64, bottom: (h.bottom + text_margin()) as i64, ..h };
    lemma_highlight_none_11(s, l, "InputPanel/ShadowMargin/Left"@);
    lemma_icons_none_11(s, l, "InputPanel/ShadowMargin/Left"@);
    let e_sp: Seq<Entry> = seq![("Menu/Spacing"@, dec_int(text_margin()))];
    let e_ic: Seq<Entry> = margin_entries("InputPanel/ContentMargin"@, l.content);
    let e_mc: Seq<Entry> = margin_entries("Menu/ContentMargin"@, l.content);
    let e_is: Seq<Entry> = margin_entries("InputPanel/ShadowMargin"@, l.shadow);
    let e_img: Seq<Entry> = seq![("InputPanel/Background/Image"@, "panel.png"@)];
    let e_bp: Seq<Entry> = if l.blur_behind { seq![("InputPanel/BlurMask"@, "mask.png"@), ("InputPanel/EnableBlur"@, "True"@)] } else { Seq::empty() };
    let e_mimg: Seq<Entry> = seq![("Menu/Background/Image"@, "panel.png"@)];
    let e_bm: Seq<Entry> = if l.blur_behind { seq![("Menu/BlurMask"@, "mask.png"@), ("Menu/EnableBlur"@, "True"@)] } else { Seq::empty() };
    let e_ib: Seq<Entry> = margin_entries("InputPanel/Background/Margin"@, l.content);
    let e_mb: Seq<Entry> = margin_entries("Menu/Background/Margin"@, l.content);
    assert(("InputPanel/Background/Image"@).len() != ("InputPanel/ShadowMargin/Left"@).len());
    assert(("InputPanel/BlurMask"@).len() != ("InputPanel/ShadowMargin/Left"@).len());
    assert(("InputPanel/EnableBlur"@).len() != ("InputPanel/ShadowMargin/Left"@).len());
    assert(("Menu/Background/Image"@).len() != ("InputPanel/ShadowMargin/Left"@).len());
    assert(("Menu/BlurMask"@).len() != ("InputPanel/ShadowMargin/Left"@).len());
    assert(("Menu/EnableBlur"@).len() != ("InputPanel/ShadowMargin/Left"@).len());
    assert(("InputPanel/Background/Margin"@ + "/Left"@).len() != ("InputPanel/ShadowMargin/Left"@).len());
    assert(("InputPanel/Background/Margin"@ + "/Top"@).len() != ("InputPanel/ShadowMargin/Left"@).len());
    assert(("InputPanel/Background/Margin"@ + "/Right"@).len() != ("InputPanel/ShadowMargin/Left"@).len());
    assert(("InputPanel/Background/Margin"@ + "/Bottom"@).len() != ("InputPanel/ShadowMargin/Left"@).len());
    assert(("Menu/Background/Margin"@ + "/Left"@).len() != ("InputPanel/ShadowMargin/Left"@).len());
    assert(("Menu/Background/Margin"@ + "/Top"@).len() != ("InputPanel/ShadowMargin/Left"@).len());
    assert(("Menu/Background/Margin"@ + "/Right"@)[0] != ("InputPanel/ShadowMargin/Left"@)[0]);
    assert(("Menu/Background/Margin"@ + "/Bottom"@).len() != ("InputPanel/ShadowMargin/Left"@).len());
    lemma_entries_none(e_img, "InputPanel/ShadowMargin/Left"@);
    lemma_entries_none(e_bp, "InputPanel/ShadowMargin/Left"@);
    lemma_entries_none(e_mimg, "InputPanel/ShadowMargin/Left"@);
    lemma_entries_none(e_bm, "InputPanel/ShadowMargin/Left"@);
    lemma_margin_none_by("InputPanel/Background/Margin"@, l.content, "InputPanel/ShadowMargin/Left"@);
    lemma_margin_none_by("Menu/Background/Margin"@, l.content, "InputPanel/ShadowMargin/Left"@);
    lemma_margin_sides("InputPanel/ShadowMargin"@, l.shadow);
    assert("InputPanel/ShadowMargin/Left"@ =~= "InputPanel/ShadowMargin"@ + "/Left"@);
    assert(panel_entries(l) == e_sp + e_ic + e_mc + e_is + e_img + e_bp + e_mimg + e_bm + e_ib + e_mb);
    lemma_last_value_concat(e_sp + e_ic + e_mc + e_is + e_img + e_bp + e_mimg + e_bm + e_ib, e_mb, "InputPanel/ShadowMargin/Left"@);
    lemma_last_value_concat(e_sp + e_ic + e_mc + e_is + e_img + e_bp + e_mimg + e_bm, e_ib, "InputPanel/ShadowMargin/Left"@);
    lemma_last_value_concat(e_sp + e_ic + e_mc + e_is + e_img + e_bp + e_mimg, e_bm, "InputPanel/ShadowMargin/Left"@);
    lemma_last_value_concat(e_sp + e_ic + e_mc + e_is + e_img + e_bp, e_mimg, "InputPanel/ShadowMargin/Left"@);
    lemma_last_value_concat(e_sp + e_ic + e_mc + e_is + e_img, e_bp, "InputPanel/ShadowMargin/Left"@);
    lemma_last_value_concat(e_sp + e_ic + e_mc + e_is, e_img, "InputPanel/ShadowMargin/Left"@);
    lemma_last_value_concat(e_sp + e_ic + e_mc, e_is, "InputPanel/ShadowMargin/Left"@);
    lemma_last_value_concat(metadata_entries(name) + color_entries(s) + panel_entries(l) + highlight_entries(l), icon_entries(l), "InputPanel/ShadowMargin/Left"@);
    lemma_last_value_concat(metadata_entries(name) + color_entries(s) + panel_entries(l), highlight_entries(l), "InputPanel/ShadowMargin/Left"@);
    lemma_last_value_concat(metadata_entries(name) + color_entries(s), panel_entries(l), "InputPanel/ShadowMargin/Left"@);
}

/// The generated entries set `InputPanel/ContentMargin/Top` last to this value.
proof fn lemma_sets_input_content_top(name: Seq<char>, s: ColorScheme, l: PanelLayout)
    ensures
        last_value(theme_entries(name, s, l), "InputPanel/ContentMargin/Top"@) == Some(dec_int(l.content.top as int)),
{
    reveal_strlit("/Bottom");
    reveal_strlit("/Left");
    reveal_strlit("/Right");
    reveal_strlit("/Top");
    reveal_strlit("InputPanel/Background/Image");
    reveal_strlit("InputPanel/Background/Margin");
    reveal_strlit("InputPanel/BlurMask");
    reveal_strlit("InputPanel/ContentMargin");
    reveal_strlit("InputPanel/ContentMargin/Top");
    reveal_strlit("InputPanel/EnableBlur");
    reveal_strlit("InputPanel/ShadowMargin");
    reveal_strlit("Menu/Background/Image");
    reveal_strlit("Menu/Background/Margin");
    reveal_strlit("Menu/BlurMask");
    reveal_strlit("Menu/ContentMargin");
    reveal_strlit("Menu/EnableBlur");
    let fg = color_text(s.window.fg_normal);
    let h = floored(l.highlight);
    let text = Margins { top: (h.top + text_margin()) as i64, bottom: (h.bottom + text_margin()) as i64, ..h };
    lemma_highlight_none_11(s, l, "InputPanel/ContentMargin/Top"@);
    lemma_icons_none_11(s, l, "InputPanel/ContentMargin/Top"@);
    let e_sp: Seq<Entry> = seq![("Menu/Spacing"@, dec_int(text_margin()))];
    let e_ic: Seq<Entry> = margin_entries("InputPanel/ContentMargin"@, l.content);
    let e_mc: Seq<Entry> = margin_entries("Menu/ContentMargin"@, l.content);
    let e_is: Seq<Entry> = margin_entries("InputPanel/ShadowMargin"@, l.shadow);
    let e_img: Seq<Entry> = seq![("InputPanel/Background/Image"@, "panel.png"@)];
    let e_bp: Seq<Entry> = if l.blur_behind { seq![("InputPanel/BlurMask"@, "mask.png"@), ("InputPanel/EnableBlur"@, "True"@)] } else { Seq::empty() };
    let e_mimg: Seq<Entry> = seq![("Menu/Background/Image"@, "panel.png"@)];
    let e_bm: Seq<Entry> = if l.blur_behind { seq![("Menu/BlurMask"@, "mask.png"@), ("Menu/EnableBlur"@, "True"@)] } else { Seq::empty() };
    let e_ib: Seq<Entry> = margin_entries("InputPanel/Background/Margin"@, l.content);
    let e_mb: Seq<Entry> = margin_entries("Menu/Background/Margin"@, l.content);
    assert(("Menu/ContentMargin"@ + "/Left"@).len() != ("InputPanel/ContentMargin/Top"@).len());
    assert(("Menu/ContentMargin"@ + "/Top"@).len() != ("InputPanel/ContentMargin/Top"@).len());
    assert(("Menu/ContentMargin"@ + "/Right"@).len() != ("InputPanel/ContentMargin/Top"@).len());
    assert(("Menu/ContentMargin"@ + "/Bottom"@).len() != ("InputPanel/ContentMargin/Top"@).len());
    assert(("InputPanel/ShadowMargin"@ + "/Left"@)[11] != ("InputPanel/ContentMargin/Top"@)[11]);
    assert(("InputPanel/ShadowMargin"@ + "/Top"@).len() != ("InputPanel/ContentMargin/Top"@).len());
    assert(("InputPanel/ShadowMargin"@ + "/Right"@).len() != ("InputPanel/ContentMargin/Top"@).len());
    assert(("InputPanel/ShadowMargin"@ + "/Bottom"@).len() != ("InputPanel/ContentMargin/Top"@).len());
    assert(("InputPanel/Background/Image"@).len() != ("InputPanel/ContentMargin/Top"@).len());
    assert(("InputPanel/BlurMask"@).len() != ("InputPanel/ContentMargin/Top"@).len());
    assert(("InputPanel/EnableBlur"@).len() != ("InputPanel/ContentMargin/Top"@).len());
    assert(("Menu/Background/Image"@).len() != ("InputPanel/ContentMargin/Top"@).len());
    assert(("Menu/BlurMask"@).len() != ("InputPanel/ContentMargin/Top"@).len());
    assert(("Menu/EnableBlur"@).len() != ("InputPanel/ContentMargin/Top"@).len());
    assert(("InputPanel/Background/Margin"@ + "/Left"@).len() != ("InputPanel/ContentMargin/Top"@).len());
    assert(("InputPanel/Background/Margin"@ + "/Top"@).len() != ("InputPanel/ContentMargin/Top"@).len());
    assert(("InputPanel/Background/Margin"@ + "/Right"@).len() != ("InputPanel/ContentMargin/Top"@).len());
    assert(("InputPanel/Background/Margin"@ + "/Bottom"@).len() != ("InputPanel/ContentMargin/Top"@).len());
    assert(("Menu/Background/Margin"@ + "/Left"@).len() != ("InputPanel/ContentMargin/Top"@).len());
    assert(("Menu/Background/Margin"@ + "/Top"@).len() != ("InputPanel/ContentMargin/Top"@).len());
    assert(("Menu/Background/Margin"@ + "/Right"@)[0] != ("InputPanel/ContentMargin/Top"@)[0]);
    assert(("Menu/Background/Margin"@ + "/Bottom"@).len() != ("InputPanel/ContentMargin/Top"@).len());
    lemma_margin_none_by("Menu/ContentMargin"@, l.content, "InputPanel/ContentMargin/Top"@);
    lemma_margin_none_by("InputPanel/ShadowMargin"@, l.shadow, "InputPanel/ContentMargin/Top"@);
    lemma_entries_none(e_img, "InputPanel/ContentMargin/Top"@);
    lemma_entries_none(e_bp, "InputPanel/ContentMargin/Top"@);
    lemma_entries_none(e_mimg, "InputPanel/ContentMargin/Top"@);
    lemma_entries_none(e_bm, "InputPanel/ContentMargin/Top"@);
    lemma_margin_none_by("InputPanel/Background/Margin"@, l.content, "InputPanel/ContentMargin/Top"@);
    lemma_margin_none_by("Menu/Background/Margin"@, l.content, "InputPanel/ContentMargin/Top"@);
    lemma_margin_sides("InputPanel/ContentMargin"@, l.content);
    assert("InputPanel/ContentMargin/Top"@ =~= "InputPanel/ContentMargin"@ + "/Top"@);
    assert(panel_entries(l) == e_sp + e_ic + e_mc + e_is + e_img + e_bp + e_mimg + e_bm + e_ib + e_mb);
    lemma_last_value_concat(e_sp + e_ic + e_mc + e_is + e_img + e_bp + e_mimg + e_bm + e_ib, e_mb, "InputPanel/ContentMargin/Top"@);
    lemma_last_value_concat(e_sp + e_ic + e_mc + e_is + e_img + e_bp + e_mimg + e_bm, e_ib, "InputPanel/ContentMargin/Top"@);
    lemma_last_value_concat(e_sp + e_ic + e_mc + e_is + e_img + e_bp + e_mimg, e_bm, "InputPanel/ContentMargin/Top"@);
    lemma_last_value_concat(e_sp + e_ic + e_mc + e_is + e_img + e_bp, e_mimg, "InputPanel/ContentMargin/Top"@);
    lemma_last_value_concat(e_sp + e_ic + e_mc + e_is + e_img, e_bp, "InputPanel/ContentMargin/Top"@);
    lemma_last_value_concat(e_sp + e_ic + e_mc + e_is, e_img, "InputPanel/ContentMargin/Top"@);
    lemma_last_value_concat(e_sp + e_ic + e_mc, e_is, "InputPanel/ContentMargin/Top"@);
    lemma_last_value_concat(e_sp + e_ic, e_mc, "InputPanel/ContentMargin/Top"@);
    lemma_last_value_concat(e_sp, e_ic, "InputPanel/ContentMargin/Top"@);
    lemma_last_value_concat(metadata_entries(name) + color_entries(s) + panel_entries(l) + highlight_entries(l), icon_entries(l), "InputPanel/ContentMargin/Top"@);
    lemma_last_value_concat(metadata_entries(name) + color_entries(s) + panel_entries(l), highlight_entries(l), "InputPanel/ContentMargin/Top"@);
    lemma_last_value_concat(metadata_entries(name) + color_entries(s), panel_entries(l), "InputPanel/ContentMargin/Top"@);
}

/// The generated entries set `Menu/ContentMargin/Top` last to this value.
proof fn lemma_sets_menu_content_top(name: Seq<char>, s: ColorScheme, l: PanelLayout)
    ensures
        last_value(theme_entries(name, s, l), "Menu/ContentMargin/Top"@) == Some(dec_int(l.content.top as int)),
{
    reveal_strlit("/Bottom");
    reveal_strlit("/Left");
    reveal_strlit("/Right");
    reveal_strlit("/Top");
    reveal_strlit("InputPanel/Background/Image");
    reveal_strlit("InputPanel/Background/Margin");
    reveal_strlit("InputPanel/BlurMask");
    reveal_strlit("InputPanel/EnableBlur");
    reveal_strlit("InputPanel/ShadowMargin");
    reveal_strlit("Menu/Background/Image");
    reveal_strlit("Menu/Background/Margin");
    reveal_strlit("Menu/BlurMask");
    reveal_strlit("Menu/ContentMargin");
    reveal_strlit("Menu/ContentMargin/Top");
    reveal_strlit("Menu/EnableBlur");
    let fg = color_text(s.window.fg_normal);
    let h = floored(l.highlight);
    let text = Margins { top: (h.top + text_margin()) as i64, bottom: (h.bottom + text_margin()) as i64, ..h };
    lemma_highlight_none_11(s, l, "Menu/ContentMargin/Top"@);
    lemma_icons_none_11(s, l, "Menu/ContentMargin/Top"@);
    let e_sp: Seq<Entry> = seq![("Menu/Spacing"@, dec_int(text_margin()))];
    let e_ic: Seq<Entry> = margin_entries("InputPanel/ContentMargin"@, l.content);
    let e_mc: Seq<Entry> = margin_entries("Menu/ContentMargin"@, l.content);
    let e_is: Seq<Entry> = margin_entries("InputPanel/ShadowMargin"@, l.shadow);
    let e_img: Seq<Entry> = seq![("InputPanel/Background/Image"@, "panel.png"@)];
    let e_bp: Seq<Entry> = if l.blur_behind { seq![("InputPanel/BlurMask"@, "mask.png"@), ("InputPanel/EnableBlur"@, "True"@)] } else { Seq::empty() };
    let e_mimg: Seq<Entry> = seq![("Menu/Background/Image"@, "panel.png"@)];
    let e_bm: Seq<Entry> = if l.blur_behind { seq![("Menu/BlurMask"@, "mask.png"@), ("Menu/EnableBlur"@, "True"@)] } else { Seq::empty() };
    let e_ib: Seq<Entry> = margin_entries("InputPanel/Background/Margin"@, l.content);
    let e_mb: Seq<Entry> = margin_entries("Menu/Background/Margin"@, l.content);
    assert(("InputPanel/ShadowMargin"@ + "/Left"@).len() != ("Menu/ContentMargin/Top"@).len());
    assert(("InputPanel/ShadowMargin"@ + "/Top"@).len() != ("Menu/ContentMargin/Top"@).len());
    assert(("InputPanel/ShadowMargin"@ + "/Right"@).len() != ("Menu/ContentMargin/Top"@).len());
    assert(("InputPanel/ShadowMargin"@ + "/Bottom"@).len() != ("Menu/ContentMargin/Top"@).len());
    assert(("InputPanel/Background/Image"@).len() != ("Menu/ContentMargin/Top"@).len());
    assert(("InputPanel/BlurMask"@).len() != ("Menu/ContentMargin/Top"@).len());
    assert(("InputPanel/EnableBlur"@).len() != ("Menu/ContentMargin/Top"@).len());
    assert(("Menu/Background/Image"@).len() != ("Menu/ContentMargin/Top"@).len());
    assert(("Menu/BlurMask"@).len() != ("Menu/ContentMargin/Top"@).len());
    assert(("Menu/EnableBlur"@).len() != ("Menu/ContentMargin/Top"@).len());
    assert(("InputPanel/Background/Margin"@ + "/Left"@).len() != ("Menu/ContentMargin/Top"@).len());
    assert(("InputPanel/Background/Margin"@ + "/Top"@).len() != ("Menu/ContentMargin/Top"@).len());
    assert(("InputPanel/Background/Margin"@ + "/Right"@).len() != ("Menu/ContentMargin/Top"@).len());
    assert(("InputPanel/Background/Margin"@ + "/Bottom"@).len() != ("Menu/ContentMargin/Top"@).len());
    assert(("Menu/Background/Margin"@ + "/Left"@).len() != ("Menu/ContentMargin/Top"@).len());
    assert(("Menu/Background/Margin"@ + "/Top"@).len() != ("Menu/ContentMargin/Top"@).len());
    assert(("Menu/Background/Margin"@ + "/Right"@).len() != ("Menu/ContentMargin/Top"@).len());
    assert(("Menu/Background/Margin"@ + "/Bottom"@).len() != ("Menu/ContentMargin/Top"@).len());
    lemma_margin_none_by("InputPanel/ShadowMargin"@, l.shadow, "Menu/ContentMargin/Top"@);
    lemma_entries_none(e_img, "Menu/ContentMargin/Top"@);
    lemma_entries_none(e_bp, "Menu/ContentMargin/Top"@);
    lemma_entries_none(e_mimg, "Menu/ContentMargin/Top"@);
    lemma_entries_none(e_bm, "Menu/ContentMargin/Top"@);
    lemma_margin_none_by("InputPanel/Background/Margin"@, l.content, "Menu/ContentMargin/Top"@);
    lemma_margin_none_by("Menu/Background/Margin"@, l.content, "Menu/ContentMargin/Top"@);
    lemma_margin_sides("Menu/ContentMargin"@, l.content);
    assert("Menu/ContentMargin/Top"@ =~= "Menu/ContentMargin"@ + "/Top"@);
    assert(panel_entries(l) == e_sp + e_ic + e_mc + e_is + e_img + e_bp + e_mimg + e_bm + e_ib + e_mb);
    lemma_last_value_concat(e_sp + e_ic + e_mc + e_is + e_img + e_bp + e_mimg + e_bm + e_ib, e_mb, "Menu/ContentMargin/Top"@);
    lemma_last_value_concat(e_sp + e_ic + e_mc + e_is + e_img + e_bp + e_mimg + e_bm, e_ib, "Menu/ContentMargin/Top"@);
    lemma_last_value_concat(e_sp + e_ic + e_mc + e_is + e_img + e_bp + e_mimg, e_bm, "Menu/ContentMargin/Top"@);
    lemma_last_value_concat(e_sp + e_ic + e_mc + e_is + e_img + e_bp, e_mimg, "Menu/ContentMargin/Top"@);
    lemma_last_value_concat(e_sp + e_ic + e_mc + e_is + e_img, e_bp, "Menu/ContentMargin/Top"@);
    lemma_last_value_concat(e_sp + e_ic + e_mc + e_is, e_img, "Menu/ContentMargin/Top"@);
    lemma_last_value_concat(e_sp + e_ic + e_mc, e_is, "Menu/ContentMargin/Top"@);
    lemma_last_value_concat(e_sp + e_ic, e_mc, "Menu/ContentMargin/Top"@);
    lemma_last_value_concat(metadata_entries(name) + color_entries(s) + panel_entries(l) + highlight_entries(l), icon_entries(l), "Menu/ContentMargin/Top"@);
    lemma_last_value_concat(metadata_entries(name) + color_entries(s) + panel_entries(l), highlight_entries(l), "Menu/ContentMargin/Top"@);
    lemma_last_value_concat(metadata_entries(name) + color_entries(s), panel_entries(l), "Menu/ContentMargin/Top"@);
}

/// The generated entries set `InputPanel/ShadowMargin/Top` last to this value.
proof fn lemma_sets_shadow_top(name: Seq<char>, s: ColorScheme, l: PanelLayout)
    ensures
        last_value(theme_entries(name, s, l), "InputPanel/ShadowMargin/Top"@) == Some(dec_int(l.shadow.top as int)),
{
    reveal_strlit("/Bottom");
    reveal_strlit("/Left");
    reveal_strlit("/Right");
    reveal_strlit("/Top");
    reveal_strlit("InputPanel/Background/Image");
    reveal_strlit("InputPanel/Background/Margin");
    reveal_strlit("InputPanel/BlurMask");
    reveal_strlit("InputPanel/EnableBlur");
    reveal_strlit("InputPanel/ShadowMargin");
    reveal_strlit("InputPanel/ShadowMargin/Top");
    reveal_strlit("Menu/Background/Image");
    reveal_strlit("Menu/Background/Margin");
    reveal_strlit("Menu/BlurMask");
    reveal_strlit("Menu/EnableBlur");
    let fg = color_text(s.window.fg_normal);
    let h = floored(l.highlight);
    let text = Margins { top: (h.top + text_margin()) as i64, bottom: (h.bottom + text_margin()) as i64, ..h };
    lemma_highlight_none_11(s, l, "InputPanel/ShadowMargin/Top"@);
    lemma_icons_none_11(s, l, "InputPanel/ShadowMargin/Top"@);
    let e_sp: Seq<Entry> = seq![("Menu/Spacing"@, dec_int(text_margin()))];
    let e_ic: Seq<Entry> = margin_entries("InputPanel/ContentMargin"@, l.content);
    let e_mc: Seq<Entry> = margin_entries("Menu/ContentMargin"@, l.content);
    let e_is: Seq<Entry> = margin_entries("InputPanel/ShadowMargin"@, l.shadow);
    let e_img: Seq<Entry> = seq![("InputPanel/Background/Image"@, "panel.png"@)];
    let e_bp: Seq<Entry> = if l.blur_behind { seq![("InputPanel/BlurMask"@, "mask.png"@), ("InputPanel/EnableBlur"@, "True"@)] } else { Seq::empty() };
    let e_mimg: Seq<Entry> = seq![("Menu/Background/Image"@, "panel.png"@)];
    let e_bm: Seq<Entry> = if l.blur_behind { seq![("Menu/BlurMask"@, "mask.png"@), ("Menu/EnableBlur"@, "True"@)] } else { Seq::empty() };
    let e_ib: Seq<Entry> = margin_entries("InputPanel/Background/Margin"@, l.content);
    let e_mb: Seq<Entry> = margin_entries("Menu/Background/Margin"@, l.content);
    assert(("InputPanel/Background/Image"@)[11] != ("InputPanel/ShadowMargin/Top"@)[11]);
    assert(("InputPanel/BlurMask"@).len() != ("InputPanel/ShadowMargin/Top"@).len());
    assert(("InputPanel/EnableBlur"@).len() != ("InputPanel/ShadowMargin/Top"@).len());
    assert(("Menu/Background/Image"@).len() != ("InputPanel/ShadowMargin/Top"@).len());
    assert(("Menu/BlurMask"@).len() != ("InputPanel/ShadowMargin/Top"@).len());
    assert(("Menu/EnableBlur"@).len() != ("InputPanel/ShadowMargin/Top"@).len());
    assert(("InputPanel/Background/Margin"@ + "/Left"@).len() != ("InputPanel/ShadowMargin/Top"@).len());
    assert(("InputPanel/Background/Margin"@ + "/Top"@).len() != ("InputPanel/ShadowMargin/Top"@).len());
    assert(("InputPanel/Background/Margin"@ + "/Right"@).len() != ("InputPanel/ShadowMargin/Top"@).len());
    assert(("InputPanel/Background/Margin"@ + "/Bottom"@).len() != ("InputPanel/ShadowMargin/Top"@).len());
    assert(("Menu/Background/Margin"@ + "/Left"@)[0] != ("InputPanel/ShadowMargin/Top"@)[0]);
    assert(("Menu/Background/Margin"@ + "/Top"@).len() != ("InputPanel/ShadowMargin/Top"@).len());
    assert(("Menu/Background/Margin"@ + "/Right"@).len() != ("InputPanel/ShadowMargin/Top"@).len());
    assert(("Menu/Background/Margin"@ + "/Bottom"@).len() != ("InputPanel/ShadowMargin/Top"@).len());
    lemma_entries_none(e_img, "InputPanel/ShadowMargin/Top"@);
    lemma_entries_none(e_bp, "InputPanel/ShadowMargin/Top"@);
    lemma_entries_none(e_mimg, "InputPanel/ShadowMargin/Top"@);
    lemma_entries_none(e_bm, "InputPanel/ShadowMargin/Top"@);
    lemma_margin_none_by("InputPanel/Background/Margin"@, l.content, "InputPanel/ShadowMargin/Top"@);
    lemma_margin_none_by("Menu/Background/Margin"@, l.content, "InputPanel/ShadowMargin/Top"@);
    lemma_margin_sides("InputPanel/ShadowMargin"@, l.shadow);
    assert("InputPanel/ShadowMargin/Top"@ =~= "InputPanel/ShadowMargin"@ + "/Top"@);
    assert(panel_entries(l) == e_sp + e_ic + e_mc + e_is + e_img + e_bp + e_mimg + e_bm + e_ib + e_mb);
    lemma_last_value_concat(e_sp + e_ic + e_mc + e_is + e_img + e_bp + e_mimg + e_bm + e_ib, e_mb, "InputPanel/ShadowMargin/Top"@);
    lemma_last_value_concat(e_sp + e_ic + e_mc + e_is + e_img + e_bp + e_mimg + e_bm, e_ib, "InputPanel/ShadowMargin/Top"@);
    lemma_last_value_concat(e_sp + e_ic + e_mc + e_is + e_img + e_bp + e_mimg, e_bm, "InputPanel/ShadowMargin/Top"@);
    lemma_last_value_concat(e_sp + e_ic + e_mc + e_is + e_img + e_bp, e_mimg, "InputPanel/ShadowMargin/Top"@);
    lemma_last_value_concat(e_sp + e_ic + e_mc + e_is + e_img, e_bp, "InputPanel/ShadowMargin/Top"@);
    lemma_last_value_concat(e_sp + e_ic + e_mc + e_is, e_img, "InputPanel/ShadowMargin/Top"@);
    lemma_last_value_concat(e_sp + e_ic + e_mc, e_is, "InputPanel/ShadowMargin/Top"@);
    lemma_last_value_concat(metadata_entries(name) + color_entries(s) + panel_entries(l) + highlight_entries(l), icon_entries(l), "InputPanel/ShadowMargin/Top"@);
    lemma_last_value_concat(metadata_entries(name) + color_entries(s) + panel_entries(l), highlight_entries(l), "InputPanel/ShadowMargin/Top"@);
    lemma_last_value_concat(metadata_entries(name) + color_entries(s), panel_entries(l), "InputPanel/ShadowMargin/Top"@);
}

/// The generated entries set `InputPanel/ContentMargin/Right` last to this value.
proof fn lemma_sets_input_content_right(name: Seq<char>, s: ColorScheme, l: PanelLayout)
    ensures
        last_value(theme_entries(name, s, l), "InputPanel/ContentMargin/Right"@) == Some(dec_int(l.content.right as int)),
{
    reveal_strlit("/Bottom");
    reveal_strlit("/Left");
    reveal_strlit("/Right");
    reveal_strlit("/Top");
    reveal_strlit("InputPanel/Background/Image");
    reveal_strlit("InputPanel/Background/Margin");
    reveal_strlit("InputPanel/BlurMask");
    reveal_strlit("InputPanel/ContentMargin");
    reveal_strlit("InputPanel/ContentMargin/Right");
    reveal_strlit("InputPanel/EnableBlur");
    reveal_strlit("InputPanel/ShadowMargin");
    reveal_strlit("Menu/Background/Image");
    reveal_strlit("Menu/Background/Margin");
    reveal_strlit("Menu/BlurMask");
    reveal_strlit("Menu/ContentMargin");
    reveal_strlit("Menu/EnableBlur");
    let fg = color_text(s.window.fg_normal);
    let h = floored(l.highlight);
    let text = Margins { top: (h.top + text_margin()) as i64, bottom: (h.bottom + text_margin()) as i64, ..h };
    lemma_highlight_none_11(s, l, "InputPanel/ContentMargin/Right"@);
    lemma_icons_none_11(s, l, "InputPanel/ContentMargin/Right"@);
    let e_sp: Seq<Entry> = seq![("Menu/Spacing"@, dec_int(text_margin()))];
    let e_ic: Seq<Entry> = margin_entries("InputPanel/ContentMargin"@, l.content);
    let e_mc: Seq<Entry> = margin_entries("Menu/ContentMargin"@, l.content);
    let e_is: Seq<Entry> = margin_entries("InputPanel/ShadowMargin"@, l.shadow);
    let e_img: Seq<Entry> = seq![("InputPanel/Background/Image"@, "panel.png"@)];
    let e_bp: Seq<Entry> = if l.blur_behind { seq![("InputPanel/BlurMask"@, "mask.png"@), ("InputPanel/EnableBlur"@, "True"@)] } else { Seq::empty() };
    let e_mimg: Seq<Entry> = seq![("Menu/Background/Image"@, "panel.png"@)];
    let e_bm: Seq<Entry> = if l.blur_behind { seq![("Menu/BlurMask"@, "mask.png"@), ("Menu/EnableBlur"@, "True"@)] } else { Seq::empty() };
    let e_ib: Seq<Entry> = margin_entries("InputPanel/Background/Margin"@, l.content);
    let e_mb: Seq<Entry> = margin_entries("Menu/Background/Margin"@, l.content);
    assert(("Menu/ContentMargin"@ + "/Left"@).len() != ("InputPanel/ContentMargin/Right"@).len());
    assert(("Menu/ContentMargin"@ + "/Top"@).len() != ("InputPanel/ContentMargin/Right"@).len());
    assert(("Menu/ContentMargin"@ + "/Right"@).len() != ("InputPanel/ContentMargin/Right"@).len());
    assert(("Menu/ContentMargin"@ + "/Bottom"@).len() != ("InputPanel/ContentMargin/Right"@).len());
    assert(("InputPanel/ShadowMargin"@ + "/Left"@).len() != ("InputPanel/ContentMargin/Right"@).len());
    assert(("InputPanel/ShadowMargin"@ + "/Top"@).len() != ("InputPanel/ContentMargin/Right"@).len());
    assert(("InputPanel/ShadowMargin"@ + "/Right"@).len() != ("InputPanel/ContentMargin/Right"@).len());
    assert(("InputPanel/ShadowMargin"@ + "/Bottom"@)[11] != ("InputPanel/ContentMargin/Right"@)[11]);
    assert(("InputPanel/Background/Image"@).len() != ("InputPanel/ContentMargin/Right"@).len());
    assert(("InputPanel/BlurMask"@).len() != ("InputPanel/ContentMargin/Right"@).len());
    assert(("InputPanel/EnableBlur"@).len() != ("InputPanel/ContentMargin/Right"@).len());
    assert(("Menu/Background/Image"@).len() != ("InputPanel/ContentMargin/Right"@).len());
    assert(("Menu/BlurMask"@).len() != ("InputPanel/ContentMargin/Right"@).len());
    assert(("Menu/EnableBlur"@).len() != ("InputPanel/ContentMargin/Right"@).len());
    assert(("InputPanel/Background/Margin"@ + "/Left"@).len() != ("InputPanel/ContentMargin/Right"@).len());
    assert(("InputPanel/Background/Margin"@ + "/Top"@).len() != ("InputPanel/ContentMargin/Right"@).len());
    assert(("InputPanel/Background/Margin"@ + "/Right"@).len() != ("InputPanel/ContentMargin/Right"@).len());
    assert(("InputPanel/Background/Margin"@ + "/Bottom"@).len() != ("InputPanel/ContentMargin/Right"@).len());
    assert(("Menu/Background/Margin"@ + "/Left"@).len() != ("InputPanel/ContentMargin/Right"@).len());
    assert(("Menu/Background/Margin"@ + "/Top"@).len() != ("InputPanel/ContentMargin/Right"@).len());
    assert(("Menu/Background/Margin"@ + "/Right"@).len() != ("InputPanel/ContentMargin/Right"@).len());
    assert(("Menu/Background/Margin"@ + "/Bottom"@).len() != ("InputPanel/ContentMargin/Right"@).len());
    lemma_margin_none_by("Menu/ContentMargin"@, l.content, "InputPanel/ContentMargin/Right"@);
    lemma_margin_none_by("InputPanel/ShadowMargin"@, l.shadow, "InputPanel/ContentMargin/Right"@);
    lemma_entries_none(e_img, "InputPanel/ContentMargin/Right"@);
    lemma_entries_none(e_bp, "InputPanel/ContentMargin/Right"@);
    lemma_entries_none(e_mimg, "InputPanel/ContentMargin/Right"@);
    lemma_entries_none(e_bm, "InputPanel/ContentMargin/Right"@);
    lemma_margin_none_by("InputPanel/Background/Margin"@, l.content, "InputPanel/ContentMargin/Right"@);
    lemma_margin_none_by("Menu/Background/Margin"@, l.content, "InputPanel/ContentMargin/Right"@);
    lemma_margin_sides("InputPanel/ContentMargin"@, l.content);
    assert("InputPanel/ContentMargin/Right"@ =~= "InputPanel/ContentMargin"@ + "/Right"@);
    assert(panel_entries(l) == e_sp + e_ic + e_mc + e_is + e_img + e_bp + e_mimg + e_bm + e_ib + e_mb);
    lemma_last_value_concat(e_sp + e_ic + e_mc + e_is + e_img + e_bp + e_mimg + e_bm + e_ib, e_mb, "InputPanel/ContentMargin/Right"@);
    lemma_last_value_concat(e_sp + e_ic + e_mc + e_is + e_img + e_bp + e_mimg + e_bm, e_ib, "InputPanel/ContentMargin/Right"@);
    lemma_last_value_concat(e_sp + e_ic + e_mc + e_is + e_img + e_bp + e_mimg, e_bm, "InputPanel/ContentMargin/Right"@);
    lemma_last_value_concat(e_sp + e_ic + e_mc + e_is + e_img + e_bp, e_mimg, "InputPanel/ContentMargin/Right"@);
    lemma_last_value_concat(e_sp + e_ic + e_mc + e_is + e_img, e_bp, "InputPanel/ContentMargin/Right"@);
    lemma_last_value_concat(e_sp + e_ic + e_mc + e_is, e_img, "InputPanel/ContentMargin/Right"@);
    lemma_last_value_concat(e_sp + e_ic + e_mc, e_is, "InputPanel/ContentMargin/Right"@);
    lemma_last_value_concat(e_sp + e_ic, e_mc, "InputPanel/ContentMargin/Right"@);
    lemma_last_value_concat(e_sp, e_ic, "InputPanel/ContentMargin/Right"@);
    lemma_last_value_concat(metadata_entries(name) + color_entries(s) + panel_entries(l) + highlight_entries(l), icon_entries(l), "InputPanel/ContentMargin/Right"@);
    lemma_last_value_concat(metadata_entries(name) + color_entries(s) + panel_entries(l), highlight_entries(l), "InputPanel/ContentMargin/Right"@);
    lemma_last_value_concat(metadata_entries(name) + color_entries(s), panel_entries(l), "InputPanel/ContentMargin/Right"@);
}

/// The generated entries set `Menu/ContentMargin/Right` last to this value.
proof fn lemma_sets_menu_content_right(name: Seq<char>, s: ColorScheme, l: PanelLayout)
    ensures
        last_value(theme_entries(name, s, l), "Menu/ContentMargin/Right"@) == Some(dec_int(l.content.right as int)),
{
    reveal_strlit("/Bottom");
    reveal_strlit("/Left");
    reveal_strlit("/Right");
    reveal_strlit("/Top");
    reveal_strlit("InputPanel/Background/Image");
    reveal_strlit("InputPanel/Background/Margin");
    reveal_strlit("InputPanel/BlurMask");
    reveal_strlit("InputPanel/EnableBlur");
    reveal_strlit("InputPanel/ShadowMargin");
    reveal_strlit("Menu/Background/Image");
    reveal_strlit("Menu/Background/Margin");
    reveal_strlit("Menu/BlurMask");
    reveal_strlit("Menu/ContentMargin");
    reveal_strlit("Menu/ContentMargin/Right");
    reveal_strlit("Menu/EnableBlur");
    let fg = color_text(s.window.fg_normal);
    let h = floored(l.highlight);
    let text = Margins { top: (h.top + text_margin()) as i64, bottom: (h.bottom + text_margin()) as i64, ..h };
    lemma_highlight_none_11(s, l, "Menu/ContentMargin/Right"@);
    lemma_icons_none_11(s, l, "Menu/ContentMargin/Right"@);
    let e_sp: Seq<Entry> = seq![("Menu/Spacing"@, dec_int(text_margin()))];
    let e_ic: Seq<Entry> = margin_entries("InputPanel/ContentMargin"@, l.content);
    let e_mc: Seq<Entry> = margin_entries("Menu/ContentMargin"@, l.content);
    let e_is: Seq<Entry> = margin_entries("InputPanel/ShadowMargin"@, l.shadow);
    let e_img: Seq<Entry> = seq![("InputPanel/Background/Image"@, "panel.png"@)];
    let e_bp: Seq<Entry> = if l.blur_behind { seq![("InputPanel/BlurMask"@, "mask.png"@), ("InputPanel/EnableBlur"@, "True"@)] } else { Seq::empty() };
    let e_mimg: Seq<Entry> = seq![("Menu/Background/Image"@, "panel.png"@)];
    let e_bm: Seq<Entry> = if l.blur_behind { seq![("Menu/BlurMask"@, "mask.png"@), ("Menu/EnableBlur"@, "True"@)] } else { Seq::empty() };
    let e_ib: Seq<Entry> = margin_entries("InputPanel/Background/Margin"@, l.content);
    let e_mb: Seq<Entry> = margin_entries("Menu/Background/Margin"@, l.content);
    assert(("InputPanel/ShadowMargin"@ + "/Left"@).len() != ("Menu/ContentMargin/Right"@).len());
    assert(("InputPanel/ShadowMargin"@ + "/Top"@).len() != ("Menu/ContentMargin/Right"@).len());
    assert(("InputPanel/ShadowMargin"@ + "/Right"@).len() != ("Menu/ContentMargin/Right"@).len());
    assert(("InputPanel/ShadowMargin"@ + "/Bottom"@).len() != ("Menu/ContentMargin/Right"@).len());
    assert(("InputPanel/Background/Image"@).len() != ("Menu/ContentMargin/Right"@).len());
    assert(("InputPanel/BlurMask"@).len() != ("Menu/ContentMargin/Right"@).len());
    assert(("InputPanel/EnableBlur"@).len() != ("Menu/ContentMargin/Right"@).len());
    assert(("Menu/Background/Image"@).len() != ("Menu/ContentMargin/Right"@).len());
    assert(("Menu/BlurMask"@).len() != ("Menu/ContentMargin/Right"@).len());
    assert(("Menu/EnableBlur"@).len() != ("Menu/ContentMargin/Right"@).len());
    assert(("InputPanel/Background/Margin"@ + "/Left"@).len() != ("Menu/ContentMargin/Right"@).len());
    assert(("InputPanel/Background/Margin"@ + "/Top"@).len() != ("Menu/ContentMargin/Right"@).len());
    assert(("InputPanel/Background/Margin"@ + "/Right"@).len() != ("Menu/ContentMargin/Right"@).len());
    assert(("InputPanel/Background/Margin"@ + "/Bottom"@).len() != ("Menu/ContentMargin/Right"@).len());
    assert(("Menu/Background/Margin"@ + "/Left"@).len() != ("Menu/ContentMargin/Right"@).len());
    assert(("Menu/Background/Margin"@ + "/Top"@).len() != ("Menu/ContentMargin/Right"@).len());
    assert(("Menu/Background/Margin"@ + "/Right"@).len() != ("Menu/ContentMargin/Right"@).len());
    assert(("Menu/Background/Margin"@ + "/Bottom"@).len() != ("Menu/ContentMargin/Right"@).len());
    lemma_margin_none_by("InputPanel/ShadowMargin"@, l.shadow, "Menu/ContentMargin/Right"@);
    lemma_entries_none(e_img, "Menu/ContentMargin/Right"@);
    lemma_entries_none(e_bp, "Menu/ContentMargin/Right"@);
    lemma_entries_none(e_mimg, "Menu/ContentMargin/Right"@);
    lemma_entries_none(e_bm, "Menu/ContentMargin/Right"@);
    lemma_margin_none_by("InputPanel/Background/Margin"@, l.content, "Menu/ContentMargin/Right"@);
    lemma_margin_none_by("Menu/Background/Margin"@, l.content, "Menu/ContentMargin/Right"@);
    lemma_margin_sides("Menu/ContentMargin"@, l.content);
    assert("Menu/ContentMargin/Right"@ =~= "Menu/ContentMargin"@ + "/Right"@);
    assert(panel_entries(l) == e_sp + e_ic + e_mc + e_is + e_img + e_bp + e_mimg + e_bm + e_ib + e_mb);
    lemma_last_value_concat(e_sp + e_ic + e_mc + e_is + e_img + e_bp + e_mimg + e_bm + e_ib, e_mb, "Menu/ContentMargin/Right"@);
    lemma_last_value_concat(e_sp + e_ic + e_mc + e_is + e_img + e_bp + e_mimg + e_bm, e_ib, "Menu/ContentMargin/Right"@);
    lemma_last_value_concat(e_sp + e_ic + e_mc + e_is + e_img + e_bp + e_mimg, e_bm, "Menu/ContentMargin/Right"@);
    lemma_last_value_concat(e_sp + e_ic + e_mc + e_is + e_img + e_bp, e_mimg, "Menu/ContentMargin/Right"@);
    lemma_last_value_concat(e_sp + e_ic + e_mc + e_is + e_img, e_bp, "Menu/ContentMargin/Right"@);
    lemma_last_value_concat(e_sp + e_ic + e_mc + e_is, e_img, "Menu/ContentMargin/Right"@);
    lemma_last_value_concat(e_sp + e_ic + e_mc, e_is, "Menu/ContentMargin/Right"@);
    lemma_last_value_concat(e_sp + e_ic, e_mc, "Menu/ContentMargin/Right"@);
    lemma_last_value_concat(metadata_entries(name) + color_entries(s) + panel_entries(l) + highlight_entries(l), icon_entries(l), "Menu/ContentMargin/Right"@);
    lemma_last_value_concat(metadata_entries(name) + color_entries(s) + panel_entries(l), highlight_entries(l), "Menu/ContentMargin/Right"@);
    lemma_last_value_concat(metadata_entries(name) + color_entries(s), panel_entries(l), "Menu/ContentMargin/Right"@);
}

/// The generated entries set `InputPanel/ShadowMargin/Right` last to this value.
proof fn lemma_sets_shadow_right(name: Seq<char>, s: ColorScheme, l: PanelLayout)
    ensures
        last_value(theme_entries(name, s, l), "InputPanel/ShadowMargin/Right"@) == Some(dec_int(l.shadow.right as int)),
{
    reveal_strlit("/Bottom");
    reveal_strlit("/Left");
    reveal_strlit("/Right");
    reveal_strlit("/Top");
    reveal_strlit("InputPanel/Background/Image");
    reveal_strlit("InputPanel/Background/Margin");
    reveal_strlit("InputPanel/BlurMask");
    reveal_strlit("InputPanel/EnableBlur");
    reveal_strlit("InputPanel/ShadowMargin");
    reveal_strlit("InputPanel/ShadowMargin/Right");
    reveal_strlit("Menu/Background/Image");
    reveal_strlit("Menu/Background/Margin");
    reveal_strlit("Menu/BlurMask");
    reveal_strlit("Menu/EnableBlur");
    let fg = color_text(s.window.fg_normal);
    let h = floored(l.highlight);
    let text = Margins { top: (h.top + text_margin()) as i64, bottom: (h.bottom + text_margin()) as i64, ..h };
    lemma_highlight_none_11(s, l, "InputPanel/ShadowMargin/Right"@);
    lemma_icons_none_11(s, l, "InputPanel/ShadowMargin/Right"@);
    let e_sp: Seq<Entry> = seq![("Menu/Spacing"@, dec_int(text_margin()))];
    let e_ic: Seq<Entry> = margin_entries("InputPanel/ContentMargin"@, l.content);
    let e_mc: Seq<Entry> = margin_entries("Menu/ContentMargin"@, l.content);
    let e_is: Seq<Entry> = margin_entries("InputPanel/ShadowMargin"@, l.shadow);
    let e_img: Seq<Entry> = seq![("InputPanel/Background/Image"@, "panel.png"@)];
    let e_bp: Seq<Entry> = if l.blur_behind { seq![("InputPanel/BlurMask"@, "mask.png"@), ("InputPanel/EnableBlur"@, "True"@)] } else { Seq::empty() };
    let e_mimg: Seq<Entry> = seq![("Menu/Background/Image"@, "panel.png"@)];
    let e_bm: Seq<Entry> = if l.blur_behind { seq![("Menu/BlurMask"@, "mask.png"@), ("Menu/EnableBlur"@, "True"@)] } else { Seq::empty() };
    let e_ib: Seq<Entry> = margin_entries("InputPanel/Background/Margin"@, l.content);
    let e_mb: Seq<Entry> = margin_entries("Menu/Background/Margin"@, l.content);
    assert(("InputPanel/Background/Image"@).len() != ("InputPanel/ShadowMargin/Right"@).len());
    assert(("InputPanel/BlurMask"@).len() != ("InputPanel/ShadowMargin/Right"@).len());
    assert(("InputPanel/EnableBlur"@).len() != ("InputPanel/ShadowMargin/Right"@).len());
    assert(("Menu/Background/Image"@).len() != ("InputPanel/ShadowMargin/Right"@).len());
    assert(("Menu/BlurMask"@).len() != ("InputPanel/ShadowMargin/Right"@).len());
    assert(("Menu/EnableBlur"@).len() != ("InputPanel/ShadowMargin/Right"@).len());
    assert(("InputPanel/Background/Margin"@ + "/Left"@).len() != ("InputPanel/ShadowMargin/Right"@).len());
    assert(("InputPanel/Background/Margin"@ + "/Top"@).len() != ("InputPanel/ShadowMargin/Right"@).len());
    assert(("InputPanel/Background/Margin"@ + "/Right"@).len() != ("InputPanel/ShadowMargin/Right"@).len());
    assert(("InputPanel/Background/Margin"@ + "/Bottom"@).len() != ("InputPanel/ShadowMargin/Right"@).len());
    assert(("Menu/Background/Margin"@ + "/Left"@).len() != ("InputPanel/ShadowMargin/Right"@).len());
    assert(("Menu/Background/Margin"@ + "/Top"@).len() != ("InputPanel/ShadowMargin/Right"@).len());
    assert(("Menu/Background/Margin"@ + "/Right"@).len() != ("InputPanel/ShadowMargin/Right"@).len());
    assert(("Menu/Background/Margin"@ + "/Bottom"@)[0] != ("InputPanel/ShadowMargin/Right"@)[0]);
    lemma_entries_none(e_img, "InputPanel/ShadowMargin/Right"@);
    lemma_entries_none(e_bp, "InputPanel/ShadowMargin/Right"@);
    lemma_entries_none(e_mimg, "InputPanel/ShadowMargin/Right"@);
    lemma_entries_none(e_bm, "InputPanel/ShadowMargin/Right"@);
    lemma_margin_none_by("InputPanel/Background/Margin"@, l.content, "InputPanel/ShadowMargin/Right"@);
    lemma_margin_none_by("Menu/Background/Margin"@, l.content, "InputPanel/ShadowMargin/Right"@);
    lemma_margin_sides("InputPanel/ShadowMargin"@, l.shadow);
    assert("InputPanel/ShadowMargin/Right"@ =~= "InputPanel/ShadowMargin"@ + "/Right"@);
    assert(panel_entries(l) == e_sp + e_ic + e_mc + e_is + e_img + e_bp + e_mimg + e_bm + e_ib + e_mb);
    lemma_last_value_concat(e_sp + e_ic + e_mc + e_is + e_img + e_bp + e_mimg + e_bm + e_ib, e_mb, "InputPanel/ShadowMargin/Right"@);
    lemma_last_value_concat(e_sp + e_ic + e_mc + e_is + e_img + e_bp + e_mimg + e_bm, e_ib, "InputPanel/ShadowMargin/Right"@);
    lemma_last_value_concat(e_sp + e_ic + e_mc + e_is + e_img + e_bp + e_mimg, e_bm, "InputPanel/ShadowMargin/Right"@);
    lemma_last_value_concat(e_sp + e_ic + e_mc + e_is + e_img + e_bp, e_mimg, "InputPanel/ShadowMargin/Right"@);
    lemma_last_value_concat(e_sp + e_ic + e_mc + e_is + e_img, e_bp, "InputPanel/ShadowMargin/Right"@);
    lemma_last_value_concat(e_sp + e_ic + e_mc + e_is, e_img, "InputPanel/ShadowMargin/Right"@);
    lemma_last_value_concat(e_sp + e_ic + e_mc, e_is, "InputPanel/ShadowMargin/Right"@);
    lemma_last_value_concat(metadata_entries(name) + color_entries(s) + panel_entries(l) + highlight_entries(l), icon_entries(l), "InputPanel/ShadowMargin/Right"@);
    lemma_last_value_concat(metadata_entries(name) + color_entries(s) + panel_entries(l), highlight_entries(l), "InputPanel/ShadowMargin/Right"@);
    lemma_last_value_concat(metadata_entries(name) + color_entries(s), panel_entries(l), "InputPanel/ShadowMargin/Right"@);
}

/// The generated entries set `InputPanel/ContentMargin/Bottom` last to this value.
proof fn lemma_sets_input_content_bottom(name: Seq<char>, s: ColorScheme, l: PanelLayout)
    ensures
        last_value(theme_entries(name, s, l), "InputPanel/ContentMargin/Bottom"@) == Some(dec_int(l.content.bottom as int)),
{
    reveal_strlit("/Bottom");
    reveal_strlit("/Left");
    reveal_strlit("/Right");
    reveal_strlit("/Top");
    reveal_strlit("InputPanel/Background/Image");
    reveal_strlit("InputPanel/Background/Margin");
    reveal_strlit("InputPanel/BlurMask");
    reveal_strlit("InputPanel/ContentMargin");
    reveal_strlit("InputPanel/ContentMargin/Bottom");
    reveal_strlit("InputPanel/EnableBlur");
    reveal_strlit("InputPanel/ShadowMargin");
    reveal_strlit("Menu/Background/Image");
    reveal_strlit("Menu/Background/Margin");
    reveal_strlit("Menu/BlurMask");
    reveal_strlit("Menu/ContentMargin");
    reveal_strlit("Menu/EnableBlur");
    let fg = color_text(s.window.fg_normal);
    let h = floored(l.highlight);
    let text = Margins { top: (h.top + text_margin()) as i64, bottom: (h.bottom + text_margin()) as i64, ..h };
    lemma_highlight_none_11(s, l, "InputPanel/ContentMargin/Bottom"@);
    lemma_icons_none_11(s, l, "InputPanel/ContentMargin/Bottom"@);
    let e_sp: Seq<Entry> = seq![("Menu/Spacing"@, dec_int(text_margin()))];
    let e_ic: Seq<Entry> = margin_entries("InputPanel/ContentMargin"@, l.content);
    let e_mc: Seq<Entry> = margin_entries("Menu/ContentMargin"@, l.content);
    let e_is: Seq<Entry> = margin_entries("InputPanel/ShadowMargin"@, l.shadow);
    let e_img: Seq<Entry> = seq![("InputPanel/Background/Image"@, "panel.png"@)];
    let e_bp: Seq<Entry> = if l.blur_behind { seq![("InputPanel/BlurMask"@, "mask.png"@), ("InputPanel/EnableBlur"@, "True"@)] } else { Seq::empty() };
    let e_mimg: Seq<Entry> = seq![("Menu/Background/Image"@, "panel.png"@)];
    let e_bm: Seq<Entry> = if l.blur_behind { seq![("Menu/BlurMask"@, "mask.png"@), ("Menu/EnableBlur"@, "True"@)] } else { Seq::empty() };
    let e_ib: Seq<Entry> = margin_entries("InputPanel/Background/Margin"@, l.content);
    let e_mb: Seq<Entry> = margin_entries("Menu/Background/Margin"@, l.content);
    assert(("Menu/ContentMargin"@ + "/Left"@).len() != ("InputPanel/ContentMargin/Bottom"@).len());
    assert(("Menu/ContentMargin"@ + "/Top"@).len() != ("InputPanel/ContentMargin/Bottom"@).len());
    assert(("Menu/ContentMargin"@ + "/Right"@).len() != ("InputPanel/ContentMargin/Bottom"@).len());
    assert(("Menu/ContentMargin"@ + "/Bottom"@).len() != ("InputPanel/ContentMargin/Bottom"@).len());
    assert(("InputPanel/ShadowMargin"@ + "/Left"@).len() != ("InputPanel/ContentMargin/Bottom"@).len());
    assert(("InputPanel/ShadowMargin"@ + "/Top"@).len() != ("InputPanel/ContentMargin/Bottom"@).len());
    assert(("InputPanel/ShadowMargin"@ + "/Right"@).len() != ("InputPanel/ContentMargin/Bottom"@).len());
    assert(("InputPanel/ShadowMargin"@ + "/Bottom"@).len() != ("InputPanel/ContentMargin/Bottom"@).len());
    assert(("InputPanel/Background/Image"@).len() != ("InputPanel/ContentMargin/Bottom"@).len());
    assert(("InputPanel/BlurMask"@).len() != ("InputPanel/ContentMargin/Bottom"@).len());
    assert(("InputPanel/EnableBlur"@).len() != ("InputPanel/ContentMargin/Bottom"@).len());
    assert(("Menu/Background/Image"@).len() != ("InputPanel/ContentMargin/Bottom"@).len());
    assert(("Menu/BlurMask"@).len() != ("InputPanel/ContentMargin/Bottom"@).len());
    assert(("Menu/EnableBlur"@).len() != ("InputPanel/ContentMargin/Bottom"@).len());
    assert(("InputPanel/Background/Margin"@ + "/Left"@).len() != ("InputPanel/ContentMargin/Bottom"@).len());
    assert(("InputPanel/Background/Margin"@ + "/Top"@).len() != ("InputPanel/ContentMargin/Bottom"@).len());
    assert(("InputPanel/Background/Margin"@ + "/Right"@).len() != ("InputPanel/ContentMargin/Bottom"@).len());
    assert(("InputPanel/Background/Margin"@ + "/Bottom"@).len() != ("InputPanel/ContentMargin/Bottom"@).len());
    assert(("Menu/Background/Margin"@ + "/Left"@).len() != ("InputPanel/ContentMargin/Bottom"@).len());
    assert(("Menu/Background/Margin"@ + "/Top"@).len() != ("InputPanel/ContentMargin/Bottom"@).len());
    assert(("Menu/Background/Margin"@ + "/Right"@).len() != ("InputPanel/ContentMargin/Bottom"@).len());
    assert(("Menu/Background/Margin"@ + "/Bottom"@).len() != ("InputPanel/ContentMargin/Bottom"@).len());
    lemma_margin_none_by("Menu/ContentMargin"@, l.content, "InputPanel/ContentMargin/Bottom"@);
    lemma_margin_none_by("InputPanel/ShadowMargin"@, l.shadow, "InputPanel/ContentMargin/Bottom"@);
    lemma_entries_none(e_img, "InputPanel/ContentMargin/Bottom"@);
    lemma_entries_none(e_bp, "InputPanel/ContentMargin/Bottom"@);
    lemma_entries_none(e_mimg, "InputPanel/ContentMargin/Bottom"@);
    lemma_entries_none(e_bm, "InputPanel/ContentMargin/Bottom"@);
    lemma_margin_none_by("InputPanel/Background/Margin"@, l.content, "InputPanel/ContentMargin/Bottom"@);
    lemma_margin_none_by("Menu/Background/Margin"@, l.content, "InputPanel/ContentMargin/Bottom"@);
    lemma_margin_sides("InputPanel/ContentMargin"@, l.content);
    assert("InputPanel/ContentMargin/Bottom"@ =~= "InputPanel/ContentMargin"@ + "/Bottom"@);
    assert(panel_entries(l) == e_sp + e_ic + e_mc + e_is + e_img + e_bp + e_mimg + e_bm + e_ib + e_mb);
    lemma_last_value_concat(e_sp + e_ic + e_mc + e_is + e_img + e_bp + e_mimg + e_bm + e_ib, e_mb, "InputPanel/ContentMargin/Bottom"@);
    lemma_last_value_concat(e_sp + e_ic + e_mc + e_is + e_img + e_bp + e_mimg + e_bm, e_ib, "InputPanel/ContentMargin/Bottom"@);
    lemma_last_value_concat(e_sp + e_ic + e_mc + e_is + e_img + e_bp + e_mimg, e_bm, "InputPanel/ContentMargin/Bottom"@);
    lemma_last_value_concat(e_sp + e_ic + e_mc + e_is + e_img + e_bp, e_mimg, "InputPanel/ContentMargin/Bottom"@);
    lemma_last_value_concat(e_sp + e_ic + e_mc + e_is + e_img, e_bp, "InputPanel/ContentMargin/Bottom"@);
    lemma_last_value_concat(e_sp + e_ic + e_mc + e_is, e_img, "InputPanel/ContentMargin/Bottom"@);
    lemma_last_value_concat(e_sp + e_ic + e_mc, e_is, "InputPanel/ContentMargin/Bottom"@);
    lemma_last_value_concat(e_sp + e_ic, e_mc, "InputPanel/ContentMargin/Bottom"@);
    lemma_last_value_concat(e_sp, e_ic, "InputPanel/ContentMargin/Bottom"@);
    lemma_last_value_concat(metadata_entries(name) + color_entries(s) + panel_entries(l) + highlight_entries(l), icon_entries(l), "InputPanel/ContentMargin/Bottom"@);
    lemma_last_value_concat(metadata_entries(name) + color_entries(s) + panel_entries(l), highlight_entries(l), "InputPanel/ContentMargin/Bottom"@);
    lemma_last_value_concat(metadata_entries(name) + color_entries(s), panel_entries(l), "InputPanel/ContentMargin/Bottom"@);
}

/// The generated entries set `Menu/ContentMargin/Bottom` last to this value.
proof fn lemma_sets_menu_content_bottom(name: Seq<char>, s: ColorScheme, l: PanelLayout)
    ensures
        last_value(theme_entries(name, s, l), "Menu/ContentMargin/Bottom"@) == Some(dec_int(l.content.bottom as int)),
{
    reveal_strlit("/Bottom");
    reveal_strlit("/Left");
    reveal_strlit("/Right");
    reveal_strlit("/Top");
    reveal_strlit("InputPanel/Background/Image");
    reveal_strlit("InputPanel/Background/Margin");
    reveal_strlit("InputPanel/BlurMask");
    reveal_strlit("InputPanel/EnableBlur");
    reveal_strlit("InputPanel/ShadowMargin");
    reveal_strlit("Menu/Background/Image");
    reveal_strlit("Menu/Background/Margin");
    reveal_strlit("Menu/BlurMask");
    reveal_strlit("Menu/ContentMargin");
    reveal_strlit("Menu/ContentMargin/Bottom");
    reveal_strlit("Menu/EnableBlur");
    let fg = color_text(s.window.fg_normal);
    let h = floored(l.highlight);
    let text = Margins { top: (h.top + text_margin()) as i64, bottom: (h.bottom + text_margin()) as i64, ..h };
    lemma_highlight_none_11(s, l, "Menu/ContentMargin/Bottom"@);
    lemma_icons_none_11(s, l, "Menu/ContentMargin/Bottom"@);
    let e_sp: Seq<Entry> = seq![("Menu/Spacing"@, dec_int(text_margin()))];
    let e_ic: Seq<Entry> = margin_entries("InputPanel/ContentMargin"@, l.content);
    let e_mc: Seq<Entry> = margin_entries("Menu/ContentMargin"@, l.content);
    let e_is: Seq<Entry> = margin_entries("InputPanel/ShadowMargin"@, l.shadow);
    let e_img: Seq<Entry> = seq![("InputPanel/Background/Image"@, "panel.png"@)];
    let e_bp: Seq<Entry> = if l.blur_behind { seq![("InputPanel/BlurMask"@, "mask.png"@), ("InputPanel/EnableBlur"@, "True"@)] } else { Seq::empty() };
    let e_mimg: Seq<Entry> = seq![("Menu/Background/Image"@, "panel.png"@)];
    let e_bm: Seq<Entry> = if l.blur_behind { seq![("Menu/BlurMask"@, "mask.png"@), ("Menu/EnableBlur"@, "True"@)] } else { Seq::empty() };
    let e_ib: Seq<Entry> = margin_entries("InputPanel/Background/Margin"@, l.content);
    let e_mb: Seq<Entry> = margin_entries("Menu/Background/Margin"@, l.content);
    assert(("InputPanel/ShadowMargin"@ + "/Left"@).len() != ("Menu/ContentMargin/Bottom"@).len());
    assert(("InputPanel/ShadowMargin"@ + "/Top"@).len() != ("Menu/ContentMargin/Bottom"@).len());
    assert(("InputPanel/ShadowMargin"@ + "/Right"@).len() != ("Menu/ContentMargin/Bottom"@).len());
    assert(("InputPanel/ShadowMargin"@ + "/Bottom"@).len() != ("Menu/ContentMargin/Bottom"@).len());
    assert(("InputPanel/Background/Image"@).len() != ("Menu/ContentMargin/Bottom"@).len());
    assert(("InputPanel/BlurMask"@).len() != ("Menu/ContentMargin/Bottom"@).len());
    assert(("InputPanel/EnableBlur"@).len() != ("Menu/ContentMargin/Bottom"@).len());
    assert(("Menu/Background/Image"@).len() != ("Menu/ContentMargin/Bottom"@).len());
    assert(("Menu/BlurMask"@).len() != ("Menu/ContentMargin/Bottom"@).len());
    assert(("Menu/EnableBlur"@).len() != ("Menu/ContentMargin/Bottom"@).len());
    assert(("InputPanel/Background/Margin"@ + "/Left"@).len() != ("Menu/ContentMargin/Bottom"@).len());
    assert(("InputPanel/Background/Margin"@ + "/Top"@).len() != ("Menu/ContentMargin/Bottom"@).len());
    assert(("InputPanel/Background/Margin"@ + "/Right"@).len() != ("Menu/ContentMargin/Bottom"@).len());
    assert(("InputPanel/Background/Margin"@ + "/Bottom"@).len() != ("Menu/ContentMargin/Bottom"@).len());
    assert(("Menu/Background/Margin"@ + "/Left"@).len() != ("Menu/ContentMargin/Bottom"@).len());
    assert(("Menu/Background/Margin"@ + "/Top"@).len() != ("Menu/ContentMargin/Bottom"@).len());
    assert(("Menu/Background/Margin"@ + "/Right"@).len() != ("Menu/ContentMargin/Bottom"@).len());
    assert(("Menu/Background/Margin"@ + "/Bottom"@).len() != ("Menu/ContentMargin/Bottom"@).len());
    lemma_margin_none_by("InputPanel/ShadowMargin"@, l.shadow, "Menu/ContentMargin/Bottom"@);
    lemma_entries_none(e_img, "Menu/ContentMargin/Bottom"@);
    lemma_entries_none(e_bp, "Menu/ContentMargin/Bottom"@);
    lemma_entries_none(e_mimg, "Menu/ContentMargin/Bottom"@);
    lemma_entries_none(e_bm, "Menu/ContentMargin/Bottom"@);
    lemma_margin_none_by("InputPanel/Background/Margin"@, l.content, "Menu/ContentMargin/Bottom"@);
    lemma_margin_none_by("Menu/Background/Margin"@, l.content, "Menu/ContentMargin/Bottom"@);
    lemma_margin_sides("Menu/ContentMargin"@, l.content);
    assert("Menu/ContentMargin/Bottom"@ =~= "Menu/ContentMargin"@ + "/Bottom"@);
    assert(panel_entries(l) == e_sp + e_ic + e_mc + e_is + e_img + e_bp + e_mimg + e_bm + e_ib + e_mb);
    lemma_last_value_concat(e_sp + e_ic + e_mc + e_is + e_img + e_bp + e_mimg + e_bm + e_ib, e_mb, "Menu/ContentMargin/Bottom"@);
    lemma_last_value_concat(e_sp + e_ic + e_mc + e_is + e_img + e_bp + e_mimg + e_bm, e_ib, "Menu/ContentMargin/Bottom"@);
    lemma_last_value_concat(e_sp + e_ic + e_mc + e_is + e_img + e_bp + e_mimg, e_bm, "Menu/ContentMargin/Bottom"@);
    lemma_last_value_concat(e_sp + e_ic + e_mc + e_is + e_img + e_bp, e_mimg, "Menu/ContentMargin/Bottom"@);
    lemma_last_value_concat(e_sp + e_ic + e_mc + e_is + e_img, e_bp, "Menu/ContentMargin/Bottom"@);
    lemma_last_value_concat(e_sp + e_ic + e_mc + e_is, e_img, "Menu/ContentMargin/Bottom"@);
    lemma_last_value_concat(e_sp + e_ic + e_mc, e_is, "Menu/ContentMargin/Bottom"@);
    lemma_last_value_concat(e_sp + e_ic, e_mc, "Menu/ContentMargin/Bottom"@);
    lemma_last_value_concat(metadata_entries(name) + color_entries(s) + panel_entries(l) + highlight_entries(l), icon_entries(l), "Menu/ContentMargin/Bottom"@);
    lemma_last_value_concat(metadata_entries(name) + color_entries(s) + panel_entries(l), highlight_entries(l), "Menu/ContentMargin/Bottom"@);
    lemma_last_value_concat(metadata_entries(name) + color_entries(s), panel_entries(l), "Menu/ContentMargin/Bottom"@);
}

/// The generated entries set `InputPanel/ShadowMargin/Bottom` last to this value.
proof fn lemma_sets_shadow_bottom(name: Seq<char>, s: ColorScheme, l: PanelLayout)
    ensures
        last_value(theme_entries(name, s, l), "InputPanel/ShadowMargin/Bottom"@) == Some(dec_int(l.shadow.bottom as int)),
{
    reveal_strlit("/Bottom");
    reveal_strlit("/Left");
    reveal_strlit("/Right");
    reveal_strlit("/Top");
    reveal_strlit("InputPanel/Background/Image");
    reveal_strlit("InputPanel/Background/Margin");
    reveal_strlit("InputPanel/BlurMask");
    reveal_strlit("InputPanel/EnableBlur");
    reveal_strlit("InputPanel/ShadowMargin");
    reveal_strlit("InputPanel/ShadowMargin/Bottom");
    reveal_strlit("Menu/Background/Image");
    reveal_strlit("Menu/Background/Margin");
    reveal_strlit("Menu/BlurMask");
    reveal_strlit("Menu/EnableBlur");
    let fg = color_text(s.window.fg_normal);
    let h = floored(l.highlight);
    let text = Margins { top: (h.top + text_margin()) as i64, bottom: (h.bottom + text_margin()) as i64, ..h };
    lemma_highlight_none_11(s, l, "InputPanel/ShadowMargin/Bottom"@);
    lemma_icons_none_11(s, l, "InputPanel/ShadowMargin/Bottom"@);
    let e_sp: Seq<Entry> = seq![("Menu/Spacing"@, dec_int(text_margin()))];
    let e_ic: Seq<Entry> = margin_entries("InputPanel/ContentMargin"@, l.content);
    let e_mc: Seq<Entry> = margin_entries("Menu/ContentMargin"@, l.content);
    let e_is: Seq<Entry> = margin_entries("InputPanel/ShadowMargin"@, l.shadow);
    let e_img: Seq<Entry> = seq![("InputPanel/Background/Image"@, "panel.png"@)];
    let e_bp: Seq<Entry> = if l.blur_behind { seq![("InputPanel/BlurMask"@, "mask.png"@), ("InputPanel/EnableBlur"@, "True"@)] } else { Seq::empty() };
    let e_mimg: Seq<Entry> = seq![("Menu/Background/Image"@, "panel.png"@)];
    let e_bm: Seq<Entry> = if l.blur_behind { seq![("Menu/BlurMask"@, "mask.png"@), ("Menu/EnableBlur"@, "True"@)] } else { Seq::empty() };
    let e_ib: Seq<Entry> = margin_entries("InputPanel/Background/Margin"@, l.content);
    let e_mb: Seq<Entry> = margin_entries("Menu/Background/Margin"@, l.content);
    assert(("InputPanel/Background/Image"@).len() != ("InputPanel/ShadowMargin/Bottom"@).len());
    assert(("InputPanel/BlurMask"@).len() != ("InputPanel/ShadowMargin/Bottom"@).len());
    assert(("InputPanel/EnableBlur"@).len() != ("InputPanel/ShadowMargin/Bottom"@).len());
    assert(("Menu/Background/Image"@).len() != ("InputPanel/ShadowMargin/Bottom"@).len());
    assert(("Menu/BlurMask"@).len() != ("InputPanel/ShadowMargin/Bottom"@).len());
    assert(("Menu/EnableBlur"@).len() != ("InputPanel/ShadowMargin/Bottom"@).len());
    assert(("InputPanel/Background/Margin"@ + "/Left"@).len() != ("InputPanel/ShadowMargin/Bottom"@).len());
    assert(("InputPanel/Background/Margin"@ + "/Top"@).len() != ("InputPanel/ShadowMargin/Bottom"@).len());
    assert(("InputPanel/Background/Margin"@ + "/Right"@).len() != ("InputPanel/ShadowMargin/Bottom"@).len());
    assert(("InputPanel/Background/Margin"@ + "/Bottom"@).len() != ("InputPanel/ShadowMargin/Bottom"@).len());
    assert(("Menu/Background/Margin"@ + "/Left"@).len() != ("InputPanel/ShadowMargin/Bottom"@).len());
    assert(("Menu/Background/Margin"@ + "/Top"@).len() != ("InputPanel/ShadowMargin/Bottom"@).len());
    assert(("Menu/Background/Margin"@ + "/Right"@).len() != ("InputPanel/ShadowMargin/Bottom"@).len());
    assert(("Menu/Background/Margin"@ + "/Bottom"@).len() != ("InputPanel/ShadowMargin/Bottom"@).len());
    lemma_entries_none(e_img, "InputPanel/ShadowMargin/Bottom"@);
    lemma_entries_none(e_bp, "InputPanel/ShadowMargin/Bottom"@);
    lemma_entries_none(e_mimg, "InputPanel/ShadowMargin/Bottom"@);
    lemma_entries_none(e_bm, "InputPanel/ShadowMargin/Bottom"@);
    lemma_margin_none_by("InputPanel/Background/Margin"@, l.content, "InputPanel/ShadowMargin/Bottom"@);
    lemma_margin_none_by("Menu/Background/Margin"@, l.content, "InputPanel/ShadowMargin/Bottom"@);
    lemma_margin_sides("InputPanel/ShadowMargin"@, l.shadow);
    assert("InputPanel/ShadowMargin/Bottom"@ =~= "InputPanel/ShadowMargin"@ + "/Bottom"@);
    assert(panel_entries(l) == e_sp + e_ic + e_mc + e_is + e_img + e_bp + e_mimg + e_bm + e_ib + e_mb);
    lemma_last_value_concat(e_sp + e_ic + e_mc + e_is + e_img + e_bp + e_mimg + e_bm + e_ib, e_mb, "InputPanel/ShadowMargin/Bottom"@);
    lemma_last_value_concat(e_sp + e_ic + e_mc + e_is + e_img + e_bp + e_mimg + e_bm, e_ib, "InputPanel/ShadowMargin/Bottom"@);
    lemma_last_value_concat(e_sp + e_ic + e_mc + e_is + e_img + e_bp + e_mimg, e_bm, "InputPanel/ShadowMargin/Bottom"@);
    lemma_last_value_concat(e_sp + e_ic + e_mc + e_is + e_img + e_bp, e_mimg, "InputPanel/ShadowMargin/Bottom"@);
    lemma_last_value_concat(e_sp + e_ic + e_mc + e_is + e_img, e_bp, "InputPanel/ShadowMargin/Bottom"@);
    lemma_last_value_concat(e_sp + e_ic + e_mc + e_is, e_img, "InputPanel/ShadowMargin/Bottom"@);
    lemma_last_value_concat(e_sp + e_ic + e_mc, e_is, "InputPanel/ShadowMargin/Bottom"@);
    lemma_last_value_concat(metadata_entries(name) + color_entries(s) + panel_entries(l) + highlight_entries(l), icon_entries(l), "InputPanel/ShadowMargin/Bottom"@);
    lemma_last_value_concat(metadata_entries(name) + color_entries(s) + panel_entries(l), highlight_entries(l), "InputPanel/ShadowMargin/Bottom"@);
    lemma_last_value_concat(metadata_entries(name) + color_entries(s), panel_entries(l), "InputPanel/ShadowMargin/Bottom"@);
}

/// The generated entries set `InputPanel/Highlight/Margin/Left` last to this value.
proof fn lemma_sets_input_highlight_left(name: Seq<char>, s: ColorScheme, l: PanelLayout)
    ensures
        last_value(theme_entries(name, s, l), "InputPanel/Highlight/Margin/Left"@) == Some(dec_int(floored(l.highlight).left as int)),
{
    reveal_strlit("/Bottom");
    reveal_strlit("/Left");
    reveal_strlit("/Right");
    reveal_strlit("/Top");
    reveal_strlit("InputPanel/Highlight/Margin");
    reveal_strlit("InputPanel/Highlight/Margin/Left");
    reveal_strlit("InputPanel/TextMargin");
    reveal_strlit("Menu/Highlight/Margin");
    reveal_strlit("Menu/TextMargin");
    let fg = color_text(s.window.fg_normal);
    let h = floored(l.highlight);
    let text = Margins { top: (h.top + text_margin()) as i64, bottom: (h.bottom + text_margin()) as i64, ..h };
    lemma_icons_none_11(s, l, "InputPanel/Highlight/Margin/Left"@);
    let e_hi: Seq<Entry> = seq![("InputPanel/Highlight/Image"@, "highlight.png"@), ("Menu/Highlight/Image"@, "highlight.png"@)];
    let e_ih: Seq<Entry> = margin_entries("InputPanel/Highlight/Margin"@, h);
    let e_mh: Seq<Entry> = margin_entries("Menu/Highlight/Margin"@, h);
    let e_it: Seq<Entry> = margin_entries("InputPanel/TextMargin"@, text);
    let e_mt: Seq<Entry> = margin_entries("Menu/TextMargin"@, h);
    assert(("Menu/Highlight/Margin"@ + "/Left"@).len() != ("InputPanel/Highlight/Margin/Left"@).len());
    assert(("Menu/Highlight/Margin"@ + "/Top"@).len() != ("InputPanel/Highlight/Margin/Left"@).len());
    assert(("Menu/Highlight/Margin"@ + "/Right"@).len() != ("InputPanel/Highlight/Margin/Left"@).len());
    assert(("Menu/Highlight/Margin"@ + "/Bottom"@).len() != ("InputPanel/Highlight/Margin/Left"@).len());
    assert(("InputPanel/TextMargin"@ + "/Left"@).len() != ("InputPanel/Highlight/Margin/Left"@).len());
    assert(("InputPanel/TextMargin"@ + "/Top"@).len() != ("InputPanel/Highlight/Margin/Left"@).len());
    assert(("InputPanel/TextMargin"@ + "/Right"@).len() != ("InputPanel/Highlight/Margin/Left"@).len());
    assert(("InputPanel/TextMargin"@ + "/Bottom"@).len() != ("InputPanel/Highlight/Margin/Left"@).len());
    assert(("Menu/TextMargin"@ + "/Left"@).len() != ("InputPanel/Highlight/Margin/Left"@).len());
    assert(("Menu/TextMargin"@ + "/Top"@).len() != ("InputPanel/Highlight/Margin/Left"@).len());
    assert(("Menu/TextMargin"@ + "/Right"@).len() != ("InputPanel/Highlight/Margin/Left"@).len());
    assert(("Menu/TextMargin"@ + "/Bottom"@).len() != ("InputPanel/Highlight/Margin/Left"@).len());
    lemma_margin_none_by("Menu/Highlight/Margin"@, h, "InputPanel/Highlight/Margin/Left"@);
    lemma_margin_none_by("InputPanel/TextMargin"@, text, "InputPanel/Highlight/Margin/Left"@);
    lemma_margin_none_by("Menu/TextMargin"@, h, "InputPanel/Highlight/Margin/Left"@);
    lemma_margin_sides("InputPanel/Highlight/Margin"@, h);
    assert("InputPanel/Highlight/Margin/Left"@ =~= "InputPanel/Highlight/Margin"@ + "/Left"@);
    assert(highlight_entries(l) == e_hi + e_ih + e_mh + e_it + e_mt);
    lemma_last_value_concat(e_hi + e_ih + e_mh + e_it, e_mt, "InputPanel/Highlight/Margin/Left"@);
    lemma_last_value_concat(e_hi + e_ih + e_mh, e_it, "InputPanel/Highlight/Margin/Left"@);
    lemma_last_value_concat(e_hi + e_ih, e_mh, "InputPanel/Highlight/Margin/Left"@);
    lemma_last_value_concat(e_hi, e_ih, "InputPanel/Highlight/Margin/Left"@);
    lemma_last_value_concat(metadata_entries(name) + color_entries(s) + panel_entries(l) + highlight_entries(l), icon_entries(l), "InputPanel/Highlight/Margin/Left"@);
    lemma_last_value_concat(metadata_entries(name) + color_entries(s) + panel_entries(l), highlight_entries(l), "InputPanel/Highlight/Margin/Left"@);
}

/// The generated entries set `Menu/Highlight/Margin/Left` last to this value.
proof fn lemma_sets_menu_highlight_left(name: Seq<char>, s: ColorScheme, l: PanelLayout)
    ensures
        last_value(theme_entries(name, s, l), "Menu/Highlight/Margin/Left"@) == Some(dec_int(floored(l.highlight).left as int)),
{
    reveal_strlit("/Bottom");
    reveal_strlit("/Left");
    reveal_strlit("/Right");
    reveal_strlit("/Top");
    reveal_strlit("InputPanel/TextMargin");
    reveal_strlit("Menu/Highlight/Margin");
    reveal_strlit("Menu/Highlight/Margin/Left");
    reveal_strlit("Menu/TextMargin");
    let fg = color_text(s.window.fg_normal);
    let h = floored(l.highlight);
    let text = Margins { top: (h.top + text_margin()) as i64, bottom: (h.bottom + text_margin()) as i64, ..h };
    lemma_icons_none_11(s, l, "Menu/Highlight/Margin/Left"@);
    let e_hi: Seq<Entry> = seq![("InputPanel/Highlight/Image"@, "highlight.png"@), ("Menu/Highlight/Image"@, "highlight.png"@)];
    let e_ih: Seq<Entry> = margin_entries("InputPanel/Highlight/Margin"@, h);
    let e_mh: Seq<Entry> = margin_entries("Menu/Highlight/Margin"@, h);
    let e_it: Seq<Entry> = margin_entries("InputPanel/TextMargin"@, text);
    let e_mt: Seq<Entry> = margin_entries("Menu/TextMargin"@, h);
    assert(("InputPanel/TextMargin"@ + "/Left"@)[0] != ("Menu/Highlight/Margin/Left"@)[0]);
    assert(("InputPanel/TextMargin"@ + "/Top"@).len() != ("Menu/Highlight/Margin/Left"@).len());
    assert(("InputPanel/TextMargin"@ + "/Right"@).len() != ("Menu/Highlight/Margin/Left"@).len());
    assert(("InputPanel/TextMargin"@ + "/Bottom"@).len() != ("Menu/Highlight/Margin/Left"@).len());
    assert(("Menu/TextMargin"@ + "/Left"@).len() != ("Menu/Highlight/Margin/Left"@).len());
    assert(("Menu/TextMargin"@ + "/Top"@).len() != ("Menu/Highlight/Margin/Left"@).len());
    assert(("Menu/TextMargin"@ + "/Right"@).len() != ("Menu/Highlight/Margin/Left"@).len());
    assert(("Menu/TextMargin"@ + "/Bottom"@).len() != ("Menu/Highlight/Margin/Left"@).len());
    lemma_margin_none_by("InputPanel/TextMargin"@, text, "Menu/Highlight/Margin/Left"@);
    lemma_margin_none_by("Menu/TextMargin"@, h, "Menu/Highlight/Margin/Left"@);
    lemma_margin_sides("Menu/Highlight/Margin"@, h);
    assert("Menu/Highlight/Margin/Left"@ =~= "Menu/Highlight/Margin"@ + "/Left"@);
    assert(highlight_entries(l) == e_hi + e_ih + e_mh + e_it + e_mt);
    lemma_last_value_concat(e_hi + e_ih + e_mh + e_it, e_mt, "Menu/Highlight/Margin/Left"@);
    lemma_last_value_concat(e_hi + e_ih + e_mh, e_it, "Menu/Highlight/Margin/Left"@);
    lemma_last_value_concat(e_hi + e_ih, e_mh, "Menu/Highlight/Margin/Left"@);
    lemma_last_value_concat(metadata_entries(name) + color_entries(s) + panel_entries(l) + highlight_entries(l), icon_entries(l), "Menu/Highlight/Margin/Left"@);
    lemma_last_value_concat(metadata_entries(name) + color_entries(s) + panel_entries(l), highlight_entries(l), "Menu/Highlight/Margin/Left"@);
}

/// The generated entries set `Menu/TextMargin/Left` last to this value.
proof fn lemma_sets_menu_text_left(name: Seq<char>, s: ColorScheme, l: PanelLayout)
    ensures
        last_value(theme_entries(name, s, l), "Menu/TextMargin/Left"@) == Some(dec_int(floored(l.highlight).left as int)),
{
    reveal_strlit("/Bottom");
    reveal_strlit("/Left");
    reveal_strlit("/Right");
    reveal_strlit("/Top");
    reveal_strlit("Menu/TextMargin");
    reveal_strlit("Menu/TextMargin/Left");
    let fg = color_text(s.window.fg_normal);
    let h = floored(l.highlight);
    let text = Margins { top: (h.top + text_margin()) as i64, bottom: (h.bottom + text_margin()) as i64, ..h };
    lemma_icons_none_11(s, l, "Menu/TextMargin/Left"@);
    let e_hi: Seq<Entry> = seq![("InputPanel/Highlight/Image"@, "highlight.png"@), ("Menu/Highlight/Image"@, "highlight.png"@)];
    let e_ih: Seq<Entry> = margin_entries("InputPanel/Highlight/Margin"@, h);
    let e_mh: Seq<Entry> = margin_entries("Menu/Highlight/Margin"@, h);
    let e_it: Seq<Entry> = margin_entries("InputPanel/TextMargin"@, text);
    let e_mt: Seq<Entry> = margin_entries("Menu/TextMargin"@, h);
    lemma_margin_sides("Menu/TextMargin"@, h);
    assert("Menu/TextMargin/Left"@ =~= "Menu/TextMargin"@ + "/Left"@);
    assert(highlight_entries(l) == e_hi + e_ih + e_mh + e_it + e_mt);
    lemma_last_value_concat(e_hi + e_ih + e_mh + e_it, e_mt, "Menu/TextMargin/Left"@);
    lemma_last_value_concat(metadata_entries(name) + color_entries(s) + panel_entries(l) + highlight_entries(l), icon_entries(l), "Menu/TextMargin/Left"@);
    lemma_last_value_concat(metadata_entries(name) + color_entries(s) + panel_entries(l), highlight_entries(l), "Menu/TextMargin/Left"@);
}

/// The generated entries set `InputPanel/TextMargin/Left` last to this value.
proof fn lemma_sets_input_text_left(name: Seq<char>, s: ColorScheme, l: PanelLayout)
    ensures
        last_value(theme_entries(name, s, l), "InputPanel/TextMargin/Left"@) == Some(dec_int(floored(l.highlight).left as int)),
{
    reveal_strlit("/Bottom");
    reveal_strlit("/Left");
    reveal_strlit("/Right");
    reveal_strlit("/Top");
    reveal_strlit("InputPanel/TextMargin");
    reveal_strlit("InputPanel/TextMargin/Left");
    reveal_strlit("Menu/TextMargin");
    let fg = color_text(s.window.fg_normal);
    let h = floored(l.highlight);
    let text = Margins { top: (h.top + text_margin()) as i64, bottom: (h.bottom + text_margin()) as i64, ..h };
    lemma_icons_none_11(s, l, "InputPanel/TextMargin/Left"@);
    let e_hi: Seq<Entry> = seq![("InputPanel/Highlight/Image"@, "highlight.png"@), ("Menu/Highlight/Image"@, "highlight.png"@)];
    let e_ih: Seq<Entry> = margin_entries("InputPanel/Highlight/Margin"@, h);
    let e_mh: Seq<Entry> = margin_entries("Menu/Highlight/Margin"@, h);
    let e_it: Seq<Entry> = margin_entries("InputPanel/TextMargin"@, text);
    let e_mt: Seq<Entry> = margin_entries("Menu/TextMargin"@, h);
    assert(("Menu/TextMargin"@ + "/Left"@).len() != ("InputPanel/TextMargin/Left"@).len());
    assert(("Menu/TextMargin"@ + "/Top"@).len() != ("InputPanel/TextMargin/Left"@).len());
    assert(("Menu/TextMargin"@ + "/Right"@).len() != ("InputPanel/TextMargin/Left"@).len());
    assert(("Menu/TextMargin"@ + "/Bottom"@).len() != ("InputPanel/TextMargin/Left"@).len());
    lemma_margin_none_by("Menu/TextMargin"@, h, "InputPanel/TextMargin/Left"@);
    lemma_margin_sides("InputPanel/TextMargin"@, text);
    assert("InputPanel/TextMargin/Left"@ =~= "InputPanel/TextMargin"@ + "/Left"@);
    assert(highlight_entries(l) == e_hi + e_ih + e_mh + e_it + e_mt);
    lemma_last_value_concat(e_hi + e_ih + e_mh + e_it, e_mt, "InputPanel/TextMargin/Left"@);
    lemma_last_value_concat(e_hi + e_ih + e_mh, e_it, "InputPanel/TextMargin/Left"@);
    lemma_last_value_concat(metadata_entries(name) + color_entries(s) + panel_entries(l) + highlight_entries(l), icon_entries(l), "InputPanel/TextMargin/Left"@);
    lemma_last_value_concat(metadata_entries(name) + color_entries(s) + panel_entries(l), highlight_entries(l), "InputPanel/TextMargin/Left"@);
}

/// The generated entries set `InputPanel/Highlight/Margin/Top` last to this value.
proof fn lemma_sets_input_highlight_top(name: Seq<char>, s: ColorScheme, l: PanelLayout)
    ensures
        last_value(theme_entries(name, s, l), "InputPanel/Highlight/Margin/Top"@) == Some(dec_int(floored(l.highlight).top as int)),
{
    reveal_strlit("/Bottom");
    reveal_strlit("/Left");
    reveal_strlit("/Right");
    reveal_strlit("/Top");
    reveal_strlit("InputPanel/Highlight/Margin");
    reveal_strlit("InputPanel/Highlight/Margin/Top");
    reveal_strlit("InputPanel/TextMargin");
    reveal_strlit("Menu/Highlight/Margin");
    reveal_strlit("Menu/TextMargin");
    let fg = color_text(s.window.fg_normal);
    let h = floored(l.highlight);
    let text = Margins { top: (h.top + text_margin()) as i64, bottom: (h.bottom + text_margin()) as i64, ..h };
    lemma_icons_none_11(s, l, "InputPanel/Highlight/Margin/Top"@);
    let e_hi: Seq<Entry> = seq![("InputPanel/Highlight/Image"@, "highlight.png"@), ("Menu/Highlight/Image"@, "highlight.png"@)];
    let e_ih: Seq<Entry> = margin_entries("InputPanel/Highlight/Margin"@, h);
    let e_mh: Seq<Entry> = margin_entries("Menu/Highlight/Margin"@, h);
    let e_it: Seq<Entry> = margin_entries("InputPanel/TextMargin"@, text);
    let e_mt: Seq<Entry> = margin_entries("Menu/TextMargin"@, h);
    assert(("Menu/Highlight/Margin"@ + "/Left"@).len() != ("InputPanel/Highlight/Margin/Top"@).len());
    assert(("Menu/Highlight/Margin"@ + "/Top"@).len() != ("InputPanel/Highlight/Margin/Top"@).len());
    assert(("Menu/Highlight/Margin"@ + "/Right"@).len() != ("InputPanel/Highlight/Margin/Top"@).len());
    assert(("Menu/Highlight/Margin"@ + "/Bottom"@).len() != ("InputPanel/Highlight/Margin/Top"@).len());
    assert(("InputPanel/TextMargin"@ + "/Left"@).len() != ("InputPanel/Highlight/Margin/Top"@).len());
    assert(("InputPanel/TextMargin"@ + "/Top"@).len() != ("InputPanel/Highlight/Margin/Top"@).len());
    assert(("InputPanel/TextMargin"@ + "/Right"@).len() != ("InputPanel/Highlight/Margin/Top"@).len());
    assert(("InputPanel/TextMargin"@ + "/Bottom"@).len() != ("InputPanel/Highlight/Margin/Top"@).len());
    assert(("Menu/TextMargin"@ + "/Left"@).len() != ("InputPanel/Highlight/Margin/Top"@).len());
    assert(("Menu/TextMargin"@ + "/Top"@).len() != ("InputPanel/Highlight/Margin/Top"@).len());
    assert(("Menu/TextMargin"@ + "/Right"@).len() != ("InputPanel/Highlight/Margin/Top"@).len());
    assert(("Menu/TextMargin"@ + "/Bottom"@).len() != ("InputPanel/Highlight/Margin/Top"@).len());
    lemma_margin_none_by("Menu/Highlight/Margin"@, h, "InputPanel/Highlight/Margin/Top"@);
    lemma_margin_none_by("InputPanel/TextMargin"@, text, "InputPanel/Highlight/Margin/Top"@);
    lemma_margin_none_by("Menu/TextMargin"@, h, "InputPanel/Highlight/Margin/Top"@);
    lemma_margin_sides("InputPanel/Highlight/Margin"@, h);
    assert("InputPanel/Highlight/Margin/Top"@ =~= "InputPanel/Highlight/Margin"@ + "/Top"@);
    assert(highlight_entries(l) == e_hi + e_ih + e_mh + e_it + e_mt);
    lemma_last_value_concat(e_hi + e_ih + e_mh + e_it, e_mt, "InputPanel/Highlight/Margin/Top"@);
    lemma_last_value_concat(e_hi + e_ih + e_mh, e_it, "InputPanel/Highlight/Margin/Top"@);
    lemma_last_value_concat(e_hi + e_ih, e_mh, "InputPanel/Highlight/Margin/Top"@);
    lemma_last_value_concat(e_hi, e_ih, "InputPanel/Highlight/Margin/Top"@);
    lemma_last_value_concat(metadata_entries(name) + color_entries(s) + panel_entries(l) + highlight_entries(l), icon_entries(l), "InputPanel/Highlight/Margin/Top"@);
    lemma_last_value_concat(metadata_entries(name) + color_entries(s) + panel_entries(l), highlight_entries(l), "InputPanel/Highlight/Margin/Top"@);
}

/// The generated entries set `Menu/Highlight/Margin/Top` last to this value.
proof fn lemma_sets_menu_highlight_top(name: Seq<char>, s: ColorScheme, l: PanelLayout)
    ensures
        last_value(theme_entries(name, s, l), "Menu/Highlight/Margin/Top"@) == Some(dec_int(floored(l.highlight).top as int)),
{
    reveal_strlit("/Bottom");
    reveal_strlit("/Left");
    reveal_strlit("/Right");
    reveal_strlit("/Top");
    reveal_strlit("InputPanel/TextMargin");
    reveal_strlit("Menu/Highlight/Margin");
    reveal_strlit("Menu/Highlight/Margin/Top");
    reveal_strlit("Menu/TextMargin");
    let fg = color_text(s.window.fg_normal);
    let h = floored(l.highlight);
    let text = Margins { top: (h.top + text_margin()) as i64, bottom: (h.bottom + text_margin()) as i64, ..h };
    lemma_icons_none_11(s, l, "Menu/Highlight/Margin/Top"@);
    let e_hi: Seq<Entry> = seq![("InputPanel/Highlight/Image"@, "highlight.png"@), ("Menu/Highlight/Image"@, "highlight.png"@)];
    let e_ih: Seq<Entry> = margin_entries("InputPanel/Highlight/Margin"@, h);
    let e_mh: Seq<Entry> = margin_entries("Menu/Highlight/Margin"@, h);
    let e_it: Seq<Entry> = margin_entries("InputPanel/TextMargin"@, text);
    let e_mt: Seq<Entry> = margin_entries("Menu/TextMargin"@, h);
    assert(("InputPanel/TextMargin"@ + "/Left"@).len() != ("Menu/Highlight/Margin/Top"@).len());
    assert(("InputPanel/TextMargin"@ + "/Top"@)[0] != ("Menu/Highlight/Margin/Top"@)[0]);
    assert(("InputPanel/TextMargin"@ + "/Right"@).len() != ("Menu/Highlight/Margin/Top"@).len());
    assert(("InputPanel/TextMargin"@ + "/Bottom"@).len() != ("Menu/Highlight/Margin/Top"@).len());
    assert(("Menu/TextMargin"@ + "/Left"@).len() != ("Menu/Highlight/Margin/Top"@).len());
    assert(("Menu/TextMargin"@ + "/Top"@).len() != ("Menu/Highlight/Margin/Top"@).len());
    assert(("Menu/TextMargin"@ + "/Right"@).len() != ("Menu/Highlight/Margin/Top"@).len());
    assert(("Menu/TextMargin"@ + "/Bottom"@).len() != ("Menu/Highlight/Margin/Top"@).len());
    lemma_margin_none_by("InputPanel/TextMargin"@, text, "Menu/Highlight/Margin/Top"@);
    lemma_margin_none_by("Menu/TextMargin"@, h, "Menu/Highlight/Margin/Top"@);
    lemma_margin_sides("Menu/Highlight/Margin"@, h);
    assert("Menu/Highlight/Margin/Top"@ =~= "Menu/Highlight/Margin"@ + "/Top"@);
    assert(highlight_entries(l) == e_hi + e_ih + e_mh + e_it + e_mt);
    lemma_last_value_concat(e_hi + e_ih + e_mh + e_it, e_mt, "Menu/Highlight/Margin/Top"@);
    lemma_last_value_concat(e_hi + e_ih + e_mh, e_it, "Menu/Highlight/Margin/Top"@);
    lemma_last_value_concat(e_hi + e_ih, e_mh, "Menu/Highlight/Margin/Top"@);
    lemma_last_value_concat(metadata_entries(name) + color_entries(s) + panel_entries(l) + highlight_entries(l), icon_entries(l), "Menu/Highlight/Margin/Top"@);
    lemma_last_value_concat(metadata_entries(name) + color_entries(s) + panel_entries(l), highlight_entries(l), "Menu/Highlight/Margin/Top"@);
}

/// The generated entries set `Menu/TextMargin/Top` last to this value.
proof fn lemma_sets_menu_text_top(name: Seq<char>, s: ColorScheme, l: PanelLayout)
    ensures
        last_value(theme_entries(name, s, l), "Menu/TextMargin/Top"@) == Some(dec_int(floored(l.highlight).top as int)),
{
    reveal_strlit("/Bottom");
    reveal_strlit("/Left");
    reveal_strlit("/Right");
    reveal_strlit("/Top");
    reveal_strlit("Menu/TextMargin");
    reveal_strlit("Menu/TextMargin/Top");
    let fg = color_text(s.window.fg_normal);
    let h = floored(l.highlight);
    let text = Margins { top: (h.top + text_margin()) as i64, bottom: (h.bottom + text_margin()) as i64, ..h };
    lemma_icons_none_11(s, l, "Menu/TextMargin/Top"@);
    let e_hi: Seq<Entry> = seq![("InputPanel/Highlight/Image"@, "highlight.png"@), ("Menu/Highlight/Image"@, "highlight.png"@)];
    let e_ih: Seq<Entry> = margin_entries("InputPanel/Highlight/Margin"@, h);
    let e_mh: Seq<Entry> = margin_entries("Menu/Highlight/Margin"@, h);
    let e_it: Seq<Entry> = margin_entries("InputPanel/TextMargin"@, text);
    let e_mt: Seq<Entry> = margin_entries("Menu/TextMargin"@, h);
    lemma_margin_sides("Menu/TextMargin"@, h);
    assert("Menu/TextMargin/Top"@ =~= "Menu/TextMargin"@ + "/Top"@);
    assert(highlight_entries(l) == e_hi + e_ih + e_mh + e_it + e_mt);
    lemma_last_value_concat(e_hi + e_ih + e_mh + e_it, e_mt, "Menu/TextMargin/Top"@);
    lemma_last_value_concat(metadata_entries(name) + color_entries(s) + panel_entries(l) + highlight_entries(l), icon_entries(l), "Menu/TextMargin/Top"@);
    lemma_last_value_concat(metadata_entries(name) + color_entries(s) + panel_entries(l), highlight_entries(l), "Menu/TextMargin/Top"@);
}

/// The generated entries set `InputPanel/TextMargin/Top` last to this value.
proof fn lemma_sets_input_text_top(name: Seq<char>, s: ColorScheme, l: PanelLayout)
    ensures
        last_value(theme_entries(name, s, l), "InputPanel/TextMargin/Top"@) == Some(dec_int((floored(l.highlight).top + text_margin()) as i64 as int)),
{
    reveal_strlit("/Bottom");
    reveal_strlit("/Left");
    reveal_strlit("/Right");
    reveal_strlit("/Top");
    reveal_strlit("InputPanel/TextMargin");
    reveal_strlit("InputPanel/TextMargin/Top");
    reveal_strlit("Menu/TextMargin");
    let fg = color_text(s.window.fg_normal);
    let h = floored(l.highlight);
    let text = Margins { top: (h.top + text_margin()) as i64, bottom: (h.bottom + text_margin()) as i64, ..h };
    lemma_icons_none_11(s, l, "InputPanel/TextMargin/Top"@);
    let e_hi: Seq<Entry> = seq![("InputPanel/Highlight/Image"@, "highlight.png"@), ("Menu/Highlight/Image"@, "highlight.png"@)];
    let e_ih: Seq<Entry> = margin_entries("InputPanel/Highlight/Margin"@, h);
    let e_mh: Seq<Entry> = margin_entries("Menu/Highlight/Margin"@, h);
    let e_it: Seq<Entry> = margin_entries("InputPanel/TextMargin"@, text);
    let e_mt: Seq<Entry> = margin_entries("Menu/TextMargin"@, h);
    assert(("Menu/TextMargin"@ + "/Left"@).len() != ("InputPanel/TextMargin/Top"@).len());
    assert(("Menu/TextMargin"@ + "/Top"@).len() != ("InputPanel/TextMargin/Top"@).len());
    assert(("Menu/TextMargin"@ + "/Right"@).len() != ("InputPanel/TextMargin/Top"@).len());
    assert(("Menu/TextMargin"@ + "/Bottom"@).len() != ("InputPanel/TextMargin/Top"@).len());
    lemma_margin_none_by("Menu/TextMargin"@, h, "InputPanel/TextMargin/Top"@);
    lemma_margin_sides("InputPanel/TextMargin"@, text);
    assert("InputPanel/TextMargin/Top"@ =~= "InputPanel/TextMargin"@ + "/Top"@);
    assert(highlight_entries(l) == e_hi + e_ih + e_mh + e_it + e_mt);
    lemma_last_value_concat(e_hi + e_ih + e_mh + e_it, e_mt, "InputPanel/TextMargin/Top"@);
    lemma_last_value_concat(e_hi + e_ih + e_mh, e_it, "InputPanel/TextMargin/Top"@);
    lemma_last_value_concat(metadata_entries(name) + color_entries(s) + panel_entries(l) + highlight_entries(l), icon_entries(l), "InputPanel/TextMargin/Top"@);
    lemma_last_value_concat(metadata_entries(name) + color_entries(s) + panel_entries(l), highlight_entries(l), "InputPanel/TextMargin/Top"@);
}

/// The generated entries set `InputPanel/Highlight/Margin/Right` last to this value.
proof fn lemma_sets_input_highlight_right(name: Seq<char>, s: ColorScheme, l: PanelLayout)
    ensures
        last_value(theme_entries(name, s, l), "InputPanel/Highlight/Margin/Right"@) == Some(dec_int(floored(l.highlight).right as int)),
{
    reveal_strlit("/Bottom");
    reveal_strlit("/Left");
    reveal_strlit("/Right");
    reveal_strlit("/Top");
    reveal_strlit("InputPanel/Highlight/Margin");
    reveal_strlit("InputPanel/Highlight/Margin/Right");
    reveal_strlit("InputPanel/TextMargin");
    reveal_strlit("Menu/Highlight/Margin");
    reveal_strlit("Menu/TextMargin");
    let fg = color_text(s.window.fg_normal);
    let h = floored(l.highlight);
    let text = Margins { top: (h.top + text_margin()) as i64, bottom: (h.bottom + text_margin()) as i64, ..h };
    lemma_icons_none_11(s, l, "InputPanel/Highlight/Margin/Right"@);
    let e_hi: Seq<Entry> = seq![("InputPanel/Highlight/Image"@, "highlight.png"@), ("Menu/Highlight/Image"@, "highlight.png"@)];
    let e_ih: Seq<Entry> = margin_entries("InputPanel/Highlight/Margin"@, h);
    let e_mh: Seq<Entry> = margin_entries("Menu/Highlight/Margin"@, h);
    let e_it: Seq<Entry> = margin_entries("InputPanel/TextMargin"@, text);
    let e_mt: Seq<Entry> = margin_entries("Menu/TextMargin"@, h);
    assert(("Menu/Highlight/Margin"@ + "/Left"@).len() != ("InputPanel/Highlight/Margin/Right"@).len());
    assert(("Menu/Highlight/Margin"@ + "/Top"@).len() != ("InputPanel/Highlight/Margin/Right"@).len());
    assert(("Menu/Highlight/Margin"@ + "/Right"@).len() != ("InputPanel/Highlight/Margin/Right"@).len());
    assert(("Menu/Highlight/Margin"@ + "/Bottom"@).len() != ("InputPanel/Highlight/Margin/Right"@).len());
    assert(("InputPanel/TextMargin"@ + "/Left"@).len() != ("InputPanel/Highlight/Margin/Right"@).len());
    assert(("InputPanel/TextMargin"@ + "/Top"@).len() != ("InputPanel/Highlight/Margin/Right"@).len());
    assert(("InputPanel/TextMargin"@ + "/Right"@).len() != ("InputPanel/Highlight/Margin/Right"@).len());
    assert(("InputPanel/TextMargin"@ + "/Bottom"@).len() != ("InputPanel/Highlight/Margin/Right"@).len());
    assert(("Menu/TextMargin"@ + "/Left"@).len() != ("InputPanel/Highlight/Margin/Right"@).len());
    assert(("Menu/TextMargin"@ + "/Top"@).len() != ("InputPanel/Highlight/Margin/Right"@).len());
    assert(("Menu/TextMargin"@ + "/Right"@).len() != ("InputPanel/Highlight/Margin/Right"@).len());
    assert(("Menu/TextMargin"@ + "/Bottom"@).len() != ("InputPanel/Highlight/Margin/Right"@).len());
    lemma_margin_none_by("Menu/Highlight/Margin"@, h, "InputPanel/Highlight/Margin/Right"@);
    lemma_margin_none_by("InputPanel/TextMargin"@, text, "InputPanel/Highlight/Margin/Right"@);
    lemma_margin_none_by("Menu/TextMargin"@, h, "InputPanel/Highlight/Margin/Right"@);
    lemma_margin_sides("InputPanel/Highlight/Margin"@, h);
    assert("InputPanel/Highlight/Margin/Right"@ =~= "InputPanel/Highlight/Margin"@ + "/Right"@);
    assert(highlight_entries(l) == e_hi + e_ih + e_mh + e_it + e_mt);
    lemma_last_value_concat(e_hi + e_ih + e_mh + e_it, e_mt, "InputPanel/Highlight/Margin/Right"@);
    lemma_last_value_concat(e_hi + e_ih + e_mh, e_it, "InputPanel/Highlight/Margin/Right"@);
    lemma_last_value_concat(e_hi + e_ih, e_mh, "InputPanel/Highlight/Margin/Right"@);
    lemma_last_value_concat(e_hi, e_ih, "InputPanel/Highlight/Margin/Right"@);
    lemma_last_value_concat(metadata_entries(name) + color_entries(s) + panel_entries(l) + highlight_entries(l), icon_entries(l), "InputPanel/Highlight/Margin/Right"@);
    lemma_last_value_concat(metadata_entries(name) + color_entries(s) + panel_entries(l), highlight_entries(l), "InputPanel/Highlight/Margin/Right"@);
}

/// The generated entries set `Menu/Highlight/Margin/Right` last to this value.
proof fn lemma_sets_menu_highlight_right(name: Seq<char>, s: ColorScheme, l: PanelLayout)
    ensures
        last_value(theme_entries(name, s, l), "Menu/Highlight/Margin/Right"@) == Some(dec_int(floored(l.highlight).right as int)),
{
    reveal_strlit("/Bottom");
    reveal_strlit("/Left");
    reveal_strlit("/Right");
    reveal_strlit("/Top");
    reveal_strlit("InputPanel/TextMargin");
    reveal_strlit("Menu/Highlight/Margin");
    reveal_strlit("Menu/Highlight/Margin/Right");
    reveal_strlit("Menu/TextMargin");
    let fg = color_text(s.window.fg_normal);
    let h = floored(l.highlight);
    let text = Margins { top: (h.top + text_margin()) as i64, bottom: (h.bottom + text_margin()) as i64, ..h };
    lemma_icons_none_11(s, l, "Menu/Highlight/Margin/Right"@);
    let e_hi: Seq<Entry> = seq![("InputPanel/Highlight/Image"@, "highlight.png"@), ("Menu/Highlight/Image"@, "highlight.png"@)];
    let e_ih: Seq<Entry> = margin_entries("InputPanel/Highlight/Margin"@, h);
    let e_mh: Seq<Entry> = margin_entries("Menu/Highlight/Margin"@, h);
    let e_it: Seq<Entry> = margin_entries("InputPanel/TextMargin"@, text);
    let e_mt: Seq<Entry> = margin_entries("Menu/TextMargin"@, h);
    assert(("InputPanel/TextMargin"@ + "/Left"@).len() != ("Menu/Highlight/Margin/Right"@).len());
    assert(("InputPanel/TextMargin"@ + "/Top"@).len() != ("Menu/Highlight/Margin/Right"@).len());
    assert(("InputPanel/TextMargin"@ + "/Right"@)[0] != ("Menu/Highlight/Margin/Right"@)[0]);
    assert(("InputPanel/TextMargin"@ + "/Bottom"@).len() != ("Menu/Highlight/Margin/Right"@).len());
    assert(("Menu/TextMargin"@ + "/Left"@).len() != ("Menu/Highlight/Margin/Right"@).len());
    assert(("Menu/TextMargin"@ + "/Top"@).len() != ("Menu/Highlight/Margin/Right"@).len());
    assert(("Menu/TextMargin"@ + "/Right"@).len() != ("Menu/Highlight/Margin/Right"@).len());
    assert(("Menu/TextMargin"@ + "/Bottom"@).len() != ("Menu/Highlight/Margin/Right"@).len());
    lemma_margin_none_by("InputPanel/TextMargin"@, text, "Menu/Highlight/Margin/Right"@);
    lemma_margin_none_by("Menu/TextMargin"@, h, "Menu/Highlight/Margin/Right"@);
    lemma_margin_sides("Menu/Highlight/Margin"@, h);
    assert("Menu/Highlight/Margin/Right"@ =~= "Menu/Highlight/Margin"@ + "/Right"@);
    assert(highlight_entries(l) == e_hi + e_ih + e_mh + e_it + e_mt);
    lemma_last_value_concat(e_hi + e_ih + e_mh + e_it, e_mt, "Menu/Highlight/Margin/Right"@);
    lemma_last_value_concat(e_hi + e_ih + e_mh, e_it, "Menu/Highlight/Margin/Right"@);
    lemma_last_value_concat(e_hi + e_ih, e_mh, "Menu/Highlight/Margin/Right"@);
    lemma_last_value_concat(metadata_entries(name) + color_entries(s) + panel_entries(l) + highlight_entries(l), icon_entries(l), "Menu/Highlight/Margin/Right"@);
    lemma_last_value_concat(metadata_entries(name) + color_entries(s) + panel_entries(l), highlight_entries(l), "Menu/Highlight/Margin/Right"@);
}

/// The generated entries set `Menu/TextMargin/Right` last to this value.
proof fn lemma_sets_menu_text_right(name: Seq<char>, s: ColorScheme, l: PanelLayout)
    ensures
        last_value(theme_entries(name, s, l), "Menu/TextMargin/Right"@) == Some(dec_int(floored(l.highlight).right as int)),
{
    reveal_strlit("/Bottom");
    reveal_strlit("/Left");
    reveal_strlit("/Right");
    reveal_strlit("/Top");
    reveal_strlit("Menu/TextMargin");
    reveal_strlit("Menu/TextMargin/Right");
    let fg = color_text(s.window.fg_normal);
    let h = floored(l.highlight);
    let text = Margins { top: (h.top + text_margin()) as i64, bottom: (h.bottom + text_margin()) as i64, ..h };
    lemma_icons_none_11(s, l, "Menu/TextMargin/Right"@);
    let e_hi: Seq<Entry> = seq![("InputPanel/Highlight/Image"@, "highlight.png"@), ("Menu/Highlight/Image"@, "highlight.png"@)];
    let e_ih: Seq<Entry> = margin_entries("InputPanel/Highlight/Margin"@, h);
    let e_mh: Seq<Entry> = margin_entries("Menu/Highlight/Margin"@, h);
    let e_it: Seq<Entry> = margin_entries("InputPanel/TextMargin"@, text);
    let e_mt: Seq<Entry> = margin_entries("Menu/TextMargin"@, h);
    lemma_margin_sides("Menu/TextMargin"@, h);
    assert("Menu/TextMargin/Right"@ =~= "Menu/TextMargin"@ + "/Right"@);
    assert(highlight_entries(l) == e_hi + e_ih + e_mh + e_it + e_mt);
    lemma_last_value_concat(e_hi + e_ih + e_mh + e_it, e_mt, "Menu/TextMargin/Right"@);
    lemma_last_value_concat(metadata_entries(name) + color_entries(s) + panel_entries(l) + highlight_entries(l), icon_entries(l), "Menu/TextMargin/Right"@);
    lemma_last_value_concat(metadata_entries(name) + color_entries(s) + panel_entries(l), highlight_entries(l), "Menu/TextMargin/Right"@);
}

/// The generated entries set `InputPanel/TextMargin/Right` last to this value.
proof fn lemma_sets_input_text_right(name: Seq<char>, s: ColorScheme, l: PanelLayout)
    ensures
        last_value(theme_entries(name, s, l), "InputPanel/TextMargin/Right"@) == Some(dec_int(floored(l.highlight).right as int)),
{
    reveal_strlit("/Bottom");
    reveal_strlit("/Left");
    reveal_strlit("/Right");
    reveal_strlit("/Top");
    reveal_strlit("InputPanel/TextMargin");
    reveal_strlit("InputPanel/TextMargin/Right");
    reveal_strlit("Menu/TextMargin");
    let fg = color_text(s.window.fg_normal);
    let h = floored(l.highlight);
    let text = Margins { top: (h.top + text_margin()) as i64, bottom: (h.bottom + text_margin()) as i64, ..h };
    lemma_icons_none_11(s, l, "InputPanel/TextMargin/Right"@);
    let e_hi: Seq<Entry> = seq![("InputPanel/Highlight/Image"@, "highlight.png"@), ("Menu/Highlight/Image"@, "highlight.png"@)];
    let e_ih: Seq<Entry> = margin_entries("InputPanel/Highlight/Margin"@, h);
    let e_mh: Seq<Entry> = margin_entries("Menu/Highlight/Margin"@, h);
    let e_it: Seq<Entry> = margin_entries("InputPanel/TextMargin"@, text);
    let e_mt: Seq<Entry> = margin_entries("Menu/TextMargin"@, h);
    assert(("Menu/TextMargin"@ + "/Left"@).len() != ("InputPanel/TextMargin/Right"@).len());
    assert(("Menu/TextMargin"@ + "/Top"@).len() != ("InputPanel/TextMargin/Right"@).len());
    assert(("Menu/TextMargin"@ + "/Right"@).len() != ("InputPanel/TextMargin/Right"@).len());
    assert(("Menu/TextMargin"@ + "/Bottom"@).len() != ("InputPanel/TextMargin/Right"@).len());
    lemma_margin_none_by("Menu/TextMargin"@, h, "InputPanel/TextMargin/Right"@);
    lemma_margin_sides("InputPanel/TextMargin"@, text);
    assert("InputPanel/TextMargin/Right"@ =~= "InputPanel/TextMargin"@ + "/Right"@);
    assert(highlight_entries(l) == e_hi + e_ih + e_mh + e_it + e_mt);
    lemma_last_value_concat(e_hi + e_ih + e_mh + e_it, e_mt, "InputPanel/TextMargin/Right"@);
    lemma_last_value_concat(e_hi + e_ih + e_mh, e_it, "InputPanel/TextMargin/Right"@);
    lemma_last_value_concat(metadata_entries(name) + color_entries(s) + panel_entries(l) + highlight_entries(l), icon_entries(l), "InputPanel/TextMargin/Right"@);
    lemma_last_value_concat(metadata_entries(name) + color_entries(s) + panel_entries(l), highlight_entries(l), "InputPanel/TextMargin/Right"@);
}

/// The generated entries set `InputPanel/Highlight/Margin/Bottom` last to this value.
proof fn lemma_sets_input_highlight_bottom(name: Seq<char>, s: ColorScheme, l: PanelLayout)
    ensures
        last_value(theme_entries(name, s, l), "InputPanel/Highlight/Margin/Bottom"@) == Some(dec_int(floored(l.highlight).bottom as int)),
{
    reveal_strlit("/Bottom");
    reveal_strlit("/Left");
    reveal_strlit("/Right");
    reveal_strlit("/Top");
    reveal_strlit("InputPanel/Highlight/Margin");
    reveal_strlit("InputPanel/Highlight/Margin/Bottom");
    reveal_strlit("InputPanel/TextMargin");
    reveal_strlit("Menu/Highlight/Margin");
    reveal_strlit("Menu/TextMargin");
    let fg = color_text(s.window.fg_normal);
    let h = floored(l.highlight);
    let text = Margins { top: (h.top + text_margin()) as i64, bottom: (h.bottom + text_margin()) as i64, ..h };
    lemma_icons_none_11(s, l, "InputPanel/Highlight/Margin/Bottom"@);
    let e_hi: Seq<Entry> = seq![("InputPanel/Highlight/Image"@, "highlight.png"@), ("Menu/Highlight/Image"@, "highlight.png"@)];
    let e_ih: Seq<Entry> = margin_entries("InputPanel/Highlight/Margin"@, h);
    let e_mh: Seq<Entry> = margin_entries("Menu/Highlight/Margin"@, h);
    let e_it: Seq<Entry> = margin_entries("InputPanel/TextMargin"@, text);
    let e_mt: Seq<Entry> = margin_entries("Menu/TextMargin"@, h);
    assert(("Menu/Highlight/Margin"@ + "/Left"@).len() != ("InputPanel/Highlight/Margin/Bottom"@).len());
    assert(("Menu/Highlight/Margin"@ + "/Top"@).len() != ("InputPanel/Highlight/Margin/Bottom"@).len());
    assert(("Menu/Highlight/Margin"@ + "/Right"@).len() != ("InputPanel/Highlight/Margin/Bottom"@).len());
    assert(("Menu/Highlight/Margin"@ + "/Bottom"@).len() != ("InputPanel/Highlight/Margin/Bottom"@).len());
    assert(("InputPanel/TextMargin"@ + "/Left"@).len() != ("InputPanel/Highlight/Margin/Bottom"@).len());
    assert(("InputPanel/TextMargin"@ + "/Top"@).len() != ("InputPanel/Highlight/Margin/Bottom"@).len());
    assert(("InputPanel/TextMargin"@ + "/Right"@).len() != ("InputPanel/Highlight/Margin/Bottom"@).len());
    assert(("InputPanel/TextMargin"@ + "/Bottom"@).len() != ("InputPanel/Highlight/Margin/Bottom"@).len());
    assert(("Menu/TextMargin"@ + "/Left"@).len() != ("InputPanel/Highlight/Margin/Bottom"@).len());
    assert(("Menu/TextMargin"@ + "/Top"@).len() != ("InputPanel/Highlight/Margin/Bottom"@).len());
    assert(("Menu/TextMargin"@ + "/Right"@).len() != ("InputPanel/Highlight/Margin/Bottom"@).len());
    assert(("Menu/TextMargin"@ + "/Bottom"@).len() != ("InputPanel/Highlight/Margin/Bottom"@).len());
    lemma_margin_none_by("Menu/Highlight/Margin"@, h, "InputPanel/Highlight/Margin/Bottom"@);
    lemma_margin_none_by("InputPanel/TextMargin"@, text, "InputPanel/Highlight/Margin/Bottom"@);
    lemma_margin_none_by("Menu/TextMargin"@, h, "InputPanel/Highlight/Margin/Bottom"@);
    lemma_margin_sides("InputPanel/Highlight/Margin"@, h);
    assert("InputPanel/Highlight/Margin/Bottom"@ =~= "InputPanel/Highlight/Margin"@ + "/Bottom"@);
    assert(highlight_entries(l) == e_hi + e_ih + e_mh + e_it + e_mt);
    lemma_last_value_concat(e_hi + e_ih + e_mh + e_it, e_mt, "InputPanel/Highlight/Margin/Bottom"@);
    lemma_last_value_concat(e_hi + e_ih + e_mh, e_it, "InputPanel/Highlight/Margin/Bottom"@);
    lemma_last_value_concat(e_hi + e_ih, e_mh, "InputPanel/Highlight/Margin/Bottom"@);
    lemma_last_value_concat(e_hi, e_ih, "InputPanel/Highlight/Margin/Bottom"@);
    lemma_last_value_concat(metadata_entries(name) + color_entries(s) + panel_entries(l) + highlight_entries(l), icon_entries(l), "InputPanel/Highlight/Margin/Bottom"@);
    lemma_last_value_concat(metadata_entries(name) + color_entries(s) + panel_entries(l), highlight_entries(l), "InputPanel/Highlight/Margin/Bottom"@);
}

/// The generated entries set `Menu/Highlight/Margin/Bottom` last to this value.
proof fn lemma_sets_menu_highlight_bottom(name: Seq<char>, s: ColorScheme, l: PanelLayout)
    ensures
        last_value(theme_entries(name, s, l), "Menu/Highlight/Margin/Bottom"@) == Some(dec_int(floored(l.highlight).bottom as int)),
{
    reveal_strlit("/Bottom");
    reveal_strlit("/Left");
    reveal_strlit("/Right");
    reveal_strlit("/Top");
    reveal_strlit("InputPanel/TextMargin");
    reveal_strlit("Menu/Highlight/Margin");
    reveal_strlit("Menu/Highlight/Margin/Bottom");
    reveal_strlit("Menu/TextMargin");
    let fg = color_text(s.window.fg_normal);
    let h = floored(l.highlight);
    let text = Margins { top: (h.top + text_margin()) as i64, bottom: (h.bottom + text_margin()) as i64, ..h };
    lemma_icons_none_11(s, l, "Menu/Highlight/Margin/Bottom"@);
    let e_hi: Seq<Entry> = seq![("InputPanel/Highlight/Image"@, "highlight.png"@), ("Menu/Highlight/Image"@, "highlight.png"@)];
    let e_ih: Seq<Entry> = margin_entries("InputPanel/Highlight/Margin"@, h);
    let e_mh: Seq<Entry> = margin_entries("Menu/Highlight/Margin"@, h);
    let e_it: Seq<Entry> = margin_entries("InputPanel/TextMargin"@, text);
    let e_mt: Seq<Entry> = margin_entries("Menu/TextMargin"@, h);
    assert(("InputPanel/TextMargin"@ + "/Left"@).len() != ("Menu/Highlight/Margin/Bottom"@).len());
    assert(("InputPanel/TextMargin"@ + "/Top"@).len() != ("Menu/Highlight/Margin/Bottom"@).len());
    assert(("InputPanel/TextMargin"@ + "/Right"@).len() != ("Menu/Highlight/Margin/Bottom"@).len());
    assert(("InputPanel/TextMargin"@ + "/Bottom"@)[0] != ("Menu/Highlight/Margin/Bottom"@)[0]);
    assert(("Menu/TextMargin"@ + "/Left"@).len() != ("Menu/Highlight/Margin/Bottom"@).len());
    assert(("Menu/TextMargin"@ + "/Top"@).len() != ("Menu/Highlight/Margin/Bottom"@).len());
    assert(("Menu/TextMargin"@ + "/Right"@).len() != ("Menu/Highlight/Margin/Bottom"@).len());
    assert(("Menu/TextMargin"@ + "/Bottom"@).len() != ("Menu/Highlight/Margin/Bottom"@).len());
    lemma_margin_none_by("InputPanel/TextMargin"@, text, "Menu/Highlight/Margin/Bottom"@);
    lemma_margin_none_by("Menu/TextMargin"@, h, "Menu/Highlight/Margin/Bottom"@);
    lemma_margin_sides("Menu/Highlight/Margin"@, h);
    assert("Menu/Highlight/Margin/Bottom"@ =~= "Menu/Highlight/Margin"@ + "/Bottom"@);
    assert(highlight_entries(l) == e_hi + e_ih + e_mh + e_it + e_mt);
    lemma_last_value_concat(e_hi + e_ih + e_mh + e_it, e_mt, "Menu/Highlight/Margin/Bottom"@);
    lemma_last_value_concat(e_hi + e_ih + e_mh, e_it, "Menu/Highlight/Margin/Bottom"@);
    lemma_last_value_concat(e_hi + e_ih, e_mh, "Menu/Highlight/Margin/Bottom"@);
    lemma_last_value_concat(metadata_entries(name) + color_entries(s) + panel_entries(l) + highlight_entries(l), icon_entries(l), "Menu/Highlight/Margin/Bottom"@);
    lemma_last_value_concat(metadata_entries(name) + color_entries(s) + panel_entries(l), highlight_entries(l), "Menu/Highlight/Margin/Bottom"@);
}

/// The generated entries set `Menu/TextMargin/Bottom` last to this value.
proof fn lemma_sets_menu_text_bottom(name: Seq<char>, s: ColorScheme, l: PanelLayout)
    ensures
        last_value(theme_entries(name, s, l), "Menu/TextMargin/Bottom"@) == Some(dec_int(floored(l.highlight).bottom as int)),
{
    reveal_strlit("/Bottom");
    reveal_strlit("/Left");
    reveal_strlit("/Right");
    reveal_strlit("/Top");
    reveal_strlit("Menu/TextMargin");
    reveal_strlit("Menu/TextMargin/Bottom");
    let fg = color_text(s.window.fg_normal);
    let h = floored(l.highlight);
    let text = Margins { top: (h.top + text_margin()) as i64, bottom: (h.bottom + text_margin()) as i64, ..h };
    lemma_icons_none_11(s, l, "Menu/TextMargin/Bottom"@);
    let e_hi: Seq<Entry> = seq![("InputPanel/Highlight/Image"@, "highlight.png"@), ("Menu/Highlight/Image"@, "highlight.png"@)];
    let e_ih: Seq<Entry> = margin_entries("InputPanel/Highlight/Margin"@, h);
    let e_mh: Seq<Entry> = margin_entries("Menu/Highlight/Margin"@, h);
    let e_it: Seq<Entry> = margin_entries("InputPanel/TextMargin"@, text);
    let e_mt: Seq<Entry> = margin_entries("Menu/TextMargin"@, h);
    lemma_margin_sides("Menu/TextMargin"@, h);
    assert("Menu/TextMargin/Bottom"@ =~= "Menu/TextMargin"@ + "/Bottom"@);
    assert(highlight_entries(l) == e_hi + e_ih + e_mh + e_it + e_mt);
    lemma_last_value_concat(e_hi + e_ih + e_mh + e_it, e_mt, "Menu/TextMargin/Bottom"@);
    lemma_last_value_concat(metadata_entries(name) + color_entries(s) + panel_entries(l) + highlight_entries(l), icon_entries(l), "Menu/TextMargin/Bottom"@);
    lemma_last_value_concat(metadata_entries(name) + color_entries(s) + panel_entries(l), highlight_entries(l), "Menu/TextMargin/Bottom"@);
}

/// The generated entries set `InputPanel/TextMargin/Bottom` last to this value.
proof fn lemma_sets_input_text_bottom(name: Seq<char>, s: ColorScheme, l: PanelLayout)
    ensures
        last_value(theme_entries(name, s, l), "InputPanel/TextMargin/Bottom"@) == Some(dec_int((floored(l.highlight).bottom + text_margin()) as i64 as int)),
{
    reveal_strlit("/Bottom");
    reveal_strlit("/Left");
    reveal_strlit("/Right");
    reveal_strlit("/Top");
    reveal_strlit("InputPanel/TextMargin");
    reveal_strlit("InputPanel/TextMargin/Bottom");
    reveal_strlit("Menu/TextMargin");
    let fg = color_text(s.window.fg_normal);
    let h = floored(l.highlight);
    let text = Margins { top: (h.top + text_margin()) as i64, bottom: (h.bottom + text_margin()) as i64, ..h };
    lemma_icons_none_11(s, l, "InputPanel/TextMargin/Bottom"@);
    let e_hi: Seq<Entry> = seq![("InputPanel/Highlight/Image"@, "highlight.png"@), ("Menu/Highlight/Image"@, "highlight.png"@)];
    let e_ih: Seq<Entry> = margin_entries("InputPanel/Highlight/Margin"@, h);
    let e_mh: Seq<Entry> = margin_entries("Menu/Highlight/Margin"@, h);
    let e_it: Seq<Entry> = margin_entries("InputPanel/TextMargin"@, text);
    let e_mt: Seq<Entry> = margin_entries("Menu/TextMargin"@, h);
    assert(("Menu/TextMargin"@ + "/Left"@).len() != ("InputPanel/TextMargin/Bottom"@).len());
    assert(("Menu/TextMargin"@ + "/Top"@).len() != ("InputPanel/TextMargin/Bottom"@).len());
    assert(("Menu/TextMargin"@ + "/Right"@).len() != ("InputPanel/TextMargin/Bottom"@).len());
    assert(("Menu/TextMargin"@ + "/Bottom"@).len() != ("InputPanel/TextMargin/Bottom"@).len());
    lemma_margin_none_by("Menu/TextMargin"@, h, "InputPanel/TextMargin/Bottom"@);
    lemma_margin_sides("InputPanel/TextMargin"@, text);
    assert("InputPanel/TextMargin/Bottom"@ =~= "InputPanel/TextMargin"@ + "/Bottom"@);
    assert(highlight_entries(l) == e_hi + e_ih + e_mh + e_it + e_mt);
    lemma_last_value_concat(e_hi + e_ih + e_mh + e_it, e_mt, "InputPanel/TextMargin/Bottom"@);
    lemma_last_value_concat(e_hi + e_ih + e_mh, e_it, "InputPanel/TextMargin/Bottom"@);
    lemma_last_value_concat(metadata_entries(name) + color_entries(s) + panel_entries(l) + highlight_entries(l), icon_entries(l), "InputPanel/TextMargin/Bottom"@);
    lemma_last_value_concat(metadata_entries(name) + color_entries(s) + panel_entries(l), highlight_entries(l), "InputPanel/TextMargin/Bottom"@);
}

/// The generated entries set `InputPanel/NormalColor` last to this value.
proof fn lemma_sets_normal_color(name: Seq<char>, s: ColorScheme, l: PanelLayout)
    ensures
        last_value(theme_entries(name, s, l), "InputPanel/NormalColor"@) == Some(color_text(s.window.fg_normal)),
{
    reveal_strlit("InputPanel/NormalColor");
    lemma_panel_none_11(s, l, "InputPanel/NormalColor"@);
    lemma_highlight_none_11(s, l, "InputPanel/NormalColor"@);
    lemma_icons_none_11(s, l, "InputPanel/NormalColor"@);
    lemma_colors_last(s);
    lemma_last_value_concat(metadata_entries(name) + color_entries(s) + panel_entries(l) + highlight_entries(l), icon_entries(l), "InputPanel/NormalColor"@);
    lemma_last_value_concat(metadata_entries(name) + color_entries(s) + panel_entries(l), highlight_entries(l), "InputPanel/NormalColor"@);
    lemma_last_value_concat(metadata_entries(name) + color_entries(s), panel_entries(l), "InputPanel/NormalColor"@);
    lemma_last_value_concat(metadata_entries(name), color_entries(s), "InputPanel/NormalColor"@);
}

/// The generated entries set `InputPanel/HighlightCandidateColor` last to this value.
proof fn lemma_sets_candidate_color(name: Seq<char>, s: ColorScheme, l: PanelLayout)
    ensures
        last_value(theme_entries(name, s, l), "InputPanel/HighlightCandidateColor"@) == Some(color_text(s.window.fg_normal)),
{
    reveal_strlit("InputPanel/HighlightCandidateColor");
    lemma_panel_none_11(s, l, "InputPanel/HighlightCandidateColor"@);
    lemma_highlight_none_20(s, l, "InputPanel/HighlightCandidateColor"@);
    lemma_icons_none_11(s, l, "InputPanel/HighlightCandidateColor"@);
    lemma_colors_last(s);
    lemma_last_value_concat(metadata_entries(name) + color_entries(s) + panel_entries(l) + highlight_entries(l), icon_entries(l), "InputPanel/HighlightCandidateColor"@);
    lemma_last_value_concat(metadata_entries(name) + color_entries(s) + panel_entries(l), highlight_entries(l), "InputPanel/HighlightCandidateColor"@);
    lemma_last_value_concat(metadata_entries(name) + color_entries(s), panel_entries(l), "InputPanel/HighlightCandidateColor"@);
    lemma_last_value_concat(metadata_entries(name), color_entries(s), "InputPanel/HighlightCandidateColor"@);
}

/// The generated entries set `InputPanel/HighlightColor` last to this value.
proof fn lemma_sets_highlight_color(name: Seq<char>, s: ColorScheme, l: PanelLayout)
    ensures
        last_value(theme_entries(name, s, l), "InputPanel/HighlightColor"@) == Some(color_text(s.selection.fg_normal)),
{
    reveal_strlit("InputPanel/HighlightColor");
    lemma_panel_none_11(s, l, "InputPanel/HighlightColor"@);
    lemma_highlight_none_11(s, l, "InputPanel/HighlightColor"@);
    lemma_icons_none_11(s, l, "InputPanel/HighlightColor"@);
    lemma_colors_last(s);
    lemma_last_value_concat(metadata_entries(name) + color_entries(s) + panel_entries(l) + highlight_entries(l), icon_entries(l), "InputPanel/HighlightColor"@);
    lemma_last_value_concat(metadata_entries(name) + color_entries(s) + panel_entries(l), highlight_entries(l), "InputPanel/HighlightColor"@);
    lemma_last_value_concat(metadata_entries(name) + color_entries(s), panel_entries(l), "InputPanel/HighlightColor"@);
    lemma_last_value_concat(metadata_entries(name), color_entries(s), "InputPanel/HighlightColor"@);
}

/// The generated entries set `InputPanel/HighlightBackgroundColor` last to this value.
proof fn lemma_sets_highlight_background_color(name: Seq<char>, s: ColorScheme, l: PanelLayout)
    ensures
        last_value(theme_entries(name, s, l), "InputPanel/HighlightBackgroundColor"@) == Some(color_text(s.selection.bg_normal)),
{
    reveal_strlit("InputPanel/HighlightBackgroundColor");
    lemma_panel_none_11(s, l, "InputPanel/HighlightBackgroundColor"@);
    lemma_highlight_none_11(s, l, "InputPanel/HighlightBackgroundColor"@);
    lemma_icons_none_11(s, l, "InputPanel/HighlightBackgroundColor"@);
    lemma_colors_last(s);
    lemma_last_value_concat(metadata_entries(name) + color_entries(s) + panel_entries(l) + highlight_entries(l), icon_entries(l), "InputPanel/HighlightBackgroundColor"@);
    lemma_last_value_concat(metadata_entries(name) + color_entries(s) + panel_entries(l), highlight_entries(l), "InputPanel/HighlightBackgroundColor"@);
    lemma_last_value_concat(metadata_entries(name) + color_entries(s), panel_entries(l), "InputPanel/HighlightBackgroundColor"@);
    lemma_last_value_concat(metadata_entries(name), color_entries(s), "InputPanel/HighlightBackgroundColor"@);
}


/// What the generated `theme.conf` holds for the highlight: its margins,
/// each side raised to at least the text margin, for the input panel and
/// the menu; the same as the menu's text margins; and as the input panel's
/// text margins, with the text margin added at the top and bottom.
pub proof fn lemma_highlight_config(name: Seq<char>, s: ColorScheme, l: PanelLayout)
    requires
        l.highlight.top < i64::MAX - 2,
        l.highlight.bottom < i64::MAX - 2,
    ensures
        ({
            let t = apply_sets(fresh(""@), theme_entries(name, s, l));
            &&& value_at(t, "InputPanel/Highlight/Margin/Left"@) == Some(dec_int(max(l.highlight.left as int, text_margin())))
            &&& value_at(t, "Menu/Highlight/Margin/Left"@) == Some(dec_int(max(l.highlight.left as int, text_margin())))
            &&& value_at(t, "Menu/TextMargin/Left"@) == Some(dec_int(max(l.highlight.left as int, text_margin())))
            &&& value_at(t, "InputPanel/TextMargin/Left"@) == Some(dec_int(max(l.highlight.left as int, text_margin())))
            &&& value_at(t, "InputPanel/Highlight/Margin/Top"@) == Some(dec_int(max(l.highlight.top as int, text_margin())))
            &&& value_at(t, "Menu/Highlight/Margin/Top"@) == Some(dec_int(max(l.highlight.top as int, text_margin())))
            &&& value_at(t, "Menu/TextMargin/Top"@) == Some(dec_int(max(l.highlight.top as int, text_margin())))
            &&& value_at(t, "InputPanel/TextMargin/Top"@) == Some(dec_int(max(l.highlight.top as int, text_margin()) + text_margin()))
            &&& value_at(t, "InputPanel/Highlight/Margin/Right"@) == Some(dec_int(max(l.highlight.right as int, text_margin())))
            &&& value_at(t, "Menu/Highlight/Margin/Right"@) == Some(dec_int(max(l.highlight.right as int, text_margin())))
            &&& value_at(t, "Menu/TextMargin/Right"@) == Some(dec_int(max(l.highlight.right as int, text_margin())))
            &&& value_at(t, "InputPanel/TextMargin/Right"@) == Some(dec_int(max(l.highlight.right as int, text_margin())))
            &&& value_at(t, "InputPanel/Highlight/Margin/Bottom"@) == Some(dec_int(max(l.highlight.bottom as int, text_margin())))
            &&& value_at(t, "Menu/Highlight/Margin/Bottom"@) == Some(dec_int(max(l.highlight.bottom as int, text_margin())))
            &&& value_at(t, "Menu/TextMargin/Bottom"@) == Some(dec_int(max(l.highlight.bottom as int, text_margin())))
            &&& value_at(t, "InputPanel/TextMargin/Bottom"@) == Some(dec_int(max(l.highlight.bottom as int, text_margin()) + text_margin()))
        }),
{
    let h = floored(l.highlight);
    assert(h.left as int == max(l.highlight.left as int, text_margin()));
    assert(h.top as int == max(l.highlight.top as int, text_margin()));
    assert(h.right as int == max(l.highlight.right as int, text_margin()));
    assert(h.bottom as int == max(l.highlight.bottom as int, text_margin()));
    assert((h.top + text_margin()) as i64 as int == h.top + text_margin());
    assert((h.bottom + text_margin()) as i64 as int == h.bottom + text_margin());
    lemma_sets_input_highlight_left(name, s, l);
    lemma_apply_sets_value(fresh(""@), theme_entries(name, s, l), "InputPanel/Highlight/Margin/Left"@, dec_int(max(l.highlight.left as int, text_margin())));
    lemma_sets_menu_highlight_left(name, s, l);
    lemma_apply_sets_value(fresh(""@), theme_entries(name, s, l), "Menu/Highlight/Margin/Left"@, dec_int(max(l.highlight.left as int, text_margin())));
    lemma_sets_menu_text_left(name, s, l);
    lemma_apply_sets_value(fresh(""@), theme_entries(name, s, l), "Menu/TextMargin/Left"@, dec_int(max(l.highlight.left as int, text_margin())));
    lemma_sets_input_text_left(name, s, l);
    lemma_apply_sets_value(fresh(""@), theme_entries(name, s, l), "InputPanel/TextMargin/Left"@, dec_int(max(l.highlight.left as int, text_margin())));
    lemma_sets_input_highlight_top(name, s, l);
    lemma_apply_sets_value(fresh(""@), theme_entries(name, s, l), "InputPanel/Highlight/Margin/Top"@, dec_int(max(l.highlight.top as int, text_margin())));
    lemma_sets_menu_highlight_top(name, s, l);
    lemma_apply_sets_value(fresh(""@), theme_entries(name, s, l), "Menu/Highlight/Margin/Top"@, dec_int(max(l.highlight.top as int, text_margin())));
    lemma_sets_menu_text_top(name, s, l);
    lemma_apply_sets_value(fresh(""@), theme_entries(name, s, l), "Menu/TextMargin/Top"@, dec_int(max(l.highlight.top as int, text_margin())));
    lemma_sets_input_text_top(name, s, l);
    lemma_apply_sets_value(fresh(""@), theme_entries(name, s, l), "InputPanel/TextMargin/Top"@, dec_int(max(l.highlight.top as int, text_margin()) + text_margin()));
    lemma_sets_input_highlight_right(name, s, l);
    lemma_apply_sets_value(fresh(""@), theme_entries(name, s, l), "InputPanel/Highlight/Margin/Right"@, dec_int(max(l.highlight.right as int, text_margin())));
    lemma_sets_menu_highlight_right(name, s, l);
    lemma_apply_sets_value(fresh(""@), theme_entries(name, s, l), "Menu/Highlight/Margin/Right"@, dec_int(max(l.highlight.right as int, text_margin())));
    lemma_sets_menu_text_right(name, s, l);
    lemma_apply_sets_value(fresh(""@), theme_entries(name, s, l), "Menu/TextMargin/Right"@, dec_int(max(l.highlight.right as int, text_margin())));
    lemma_sets_input_text_right(name, s, l);
    lemma_apply_sets_value(fresh(""@), theme_entries(name, s, l), "InputPanel/TextMargin/Right"@, dec_int(max(l.highlight.right as int, text_margin())));
    lemma_sets_input_highlight_bottom(name, s, l);
    lemma_apply_sets_value(fresh(""@), theme_entries(name, s, l), "InputPanel/Highlight/Margin/Bottom"@, dec_int(max(l.highlight.bottom as int, text_margin())));
    lemma_sets_menu_highlight_bottom(name, s, l);
    lemma_apply_sets_value(fresh(""@), theme_entries(name, s, l), "Menu/Highlight/Margin/Bottom"@, dec_int(max(l.highlight.bottom as int, text_margin())));
    lemma_sets_menu_text_bottom(name, s, l);
    lemma_apply_sets_value(fresh(""@), theme_entries(name, s, l), "Menu/TextMargin/Bottom"@, dec_int(max(l.highlight.bottom as int, text_margin())));
    lemma_sets_input_text_bottom(name, s, l);
    lemma_apply_sets_value(fresh(""@), theme_entries(name, s, l), "InputPanel/TextMargin/Bottom"@, dec_int(max(l.highlight.bottom as int, text_margin()) + text_margin()));
}

/// The hexadecimal text of an opaque color (`#rrggbb`).
pub open spec fn color_text(c: Rgb) -> Seq<char> {
    hex_string(Color { red: widen(c.0), green: widen(c.1), blue: widen(c.2), alpha: widen(255) })
}

/// The four entries of `setMarginsToConfig`: `path/Left`, `/Top`, `/Right`
/// and `/Bottom`.
pub open spec fn margin_entries(path: Seq<char>, m: Margins) -> Seq<Entry> {
    seq![
        (path + "/Left"@, dec_int(m.left as int)),
        (path + "/Top"@, dec_int(m.top as int)),
        (path + "/Right"@, dec_int(m.right as int)),
        (path + "/Bottom"@, dec_int(m.bottom as int)),
    ]
}

/// The metadata entries naming the source theme.
pub open spec fn metadata_entries(name: Seq<char>) -> Seq<Entry> {
    seq![
        ("Metadata/Name"@, "Plasma"@),
        ("Metadata/Version"@, "1"@),
        ("Metadata/Author"@, "Fcitx"@),
        ("Metadata/Description"@, "Theme generated from Plasma Theme "@ + name),
    ]
}

/// The input panel colors: window text for candidates, selection colors
/// for the highlight (the two candidate colors are set twice: the later
/// write leaves the key where the first put it).
pub open spec fn color_entries(s: ColorScheme) -> Seq<Entry> {
    let fg = color_text(s.window.fg_normal);
    seq![
        ("InputPanel/NormalColor"@, fg),
        ("InputPanel/HighlightCandidateColor"@, fg),
        ("InputPanel/HighlightColor"@, color_text(s.selection.fg_normal)),
        ("InputPanel/HighlightBackgroundColor"@, color_text(s.selection.bg_normal)),
        ("InputPanel/PageButtonAlignment"@, "Last Candidate"@),
        ("InputPanel/NormalColor"@, fg),
        ("InputPanel/HighlightCandidateColor"@, fg),
    ]
}

/// The panel background entries: menu spacing, content and shadow
/// margins, the background image, the blur mask when enabled, and the
/// background margins.
pub open spec fn panel_entries(l: PanelLayout) -> Seq<Entry> {
    let blur_panel = if l.blur_behind {
        seq![("InputPanel/BlurMask"@, "mask.png"@), ("InputPanel/EnableBlur"@, "True"@)]
    } else {
        Seq::empty()
    };
    let blur_menu = if l.blur_behind {
        seq![("Menu/BlurMask"@, "mask.png"@), ("Menu/EnableBlur"@, "True"@)]
    } else {
        Seq::empty()
    };
    seq![("Menu/Spacing"@, dec_int(text_margin()))] + margin_entries(
        "InputPanel/ContentMargin"@,
        l.content,
    ) + margin_entries("Menu/ContentMargin"@, l.content) + margin_entries(
        "InputPanel/ShadowMargin"@,
        l.shadow,
    ) + seq![("InputPanel/Background/Image"@, "panel.png"@)] + blur_panel + seq![
        ("Menu/Background/Image"@, "panel.png"@),
    ] + blur_menu + margin_entries("InputPanel/Background/Margin"@, l.content) + margin_entries(
        "Menu/Background/Margin"@,
        l.content,
    )
}

/// The larger of two integers.
pub open spec fn max(a: int, b: int) -> int {
    if a >= b {
        a
    } else {
        b
    }
}

/// Margins raised to at least the text margin.
pub open spec fn floored(m: Margins) -> Margins {
    Margins {
        left: max(m.left as int, text_margin()) as i64,
        top: max(m.top as int, text_margin()) as i64,
        right: max(m.right as int, text_margin()) as i64,
        bottom: max(m.bottom as int, text_margin()) as i64,
    }
}

/// The highlight entries: the image, its margins floored at the text
/// margin, and the text margins (the input panel's grown by the text
/// margin at top and bottom).
pub open spec fn highlight_entries(l: PanelLayout) -> Seq<Entry> {
    let h = floored(l.highlight);
    let text = Margins {
        top: (h.top + text_margin()) as i64,
        bottom: (h.bottom + text_margin()) as i64,
        ..h
    };
    seq![
        ("InputPanel/Highlight/Image"@, "highlight.png"@),
        ("Menu/Highlight/Image"@, "highlight.png"@),
    ] + margin_entries("InputPanel/Highlight/Margin"@, h) + margin_entries(
        "Menu/Highlight/Margin"@,
        h,
    ) + margin_entries("InputPanel/TextMargin"@, text) + margin_entries("Menu/TextMargin"@, h)
}

/// The icon entries for the images that exist.
pub open spec fn icon_entries(l: PanelLayout) -> Seq<Entry> {
    (if l.prev_next {
        seq![
            ("InputPanel/PrevPage/Image"@, "prev.png"@),
            ("InputPanel/NextPage/Image"@, "next.png"@),
        ]
    } else {
        Seq::empty()
    }) + (if l.arrow {
        seq![("Menu/SubMenu/Image"@, "arrow.png"@)]
    } else {
        Seq::empty()
    }) + (if l.radio {
        seq![("Menu/CheckBox/Image"@, "radio.png"@)]
    } else {
        Seq::empty()
    }) + (if l.line {
        seq![("Menu/Separator/Image"@, "line.png"@)]
    } else {
        Seq::empty()
    })
}

/// Every entry of the generated `theme.conf`, in the order they are set.
pub open spec fn theme_entries(name: Seq<char>, s: ColorScheme, l: PanelLayout) -> Seq<Entry> {
    metadata_entries(name) + color_entries(s) + panel_entries(l) + highlight_entries(l)
        + icon_entries(l)
}

/// Set one entry, extending the list of entries set so far.
fn put(config: &mut RawConfig, path: &str, value: &str, Ghost(base): Ghost<Tree>, Ghost(es): Ghost<Seq<Entry>>)
    requires
        old(config)@ == apply_sets(base, es),
    ensures
        final(config)@ == apply_sets(base, es.push((path@, value@))),
{
    config.set(path, value);
    proof {
        lemma_apply_push(base, es, (path@, value@));
    }
}

/// The decimal text of `n`.
fn dec_string(n: i64) -> (s: String)
    ensures
        s@ == dec_int(n as int),
{
    let mut s = String::new();
    push_dec_i64(&mut s, n);
    assert(s@ =~= dec_int(n as int));
    s
}

/// `path` followed by `suffix`.
fn joined(path: &str, suffix: &str) -> (s: String)
    ensures
        s@ == path@ + suffix@,
{
    let mut s = String::new();
    push_str(&mut s, path);
    push_str(&mut s, suffix);
    assert(s@ =~= path@ + suffix@);
    s
}

/// `setMarginsToConfig`: set the four margins below `path`.
fn set_margins_to_config(config: &mut RawConfig, path: &str, m: Margins)
    ensures
        final(config)@ == apply_sets(old(config)@, margin_entries(path@, m)),
{
    let ghost base = config@;
    assert(apply_sets(base, Seq::empty()) == base);
    let p = joined(path, "/Left");
    let v = dec_string(m.left);
    put(config, p.as_str(), v.as_str(), Ghost(base), Ghost(Seq::empty()));
    let ghost es1 = seq![(p@, v@)];
    assert(Seq::<Entry>::empty().push((p@, v@)) =~= es1);
    let p = joined(path, "/Top");
    let v = dec_string(m.top);
    put(config, p.as_str(), v.as_str(), Ghost(base), Ghost(es1));
    let ghost es2 = es1.push((p@, v@));
    let p = joined(path, "/Right");
    let v = dec_string(m.right);
    put(config, p.as_str(), v.as_str(), Ghost(base), Ghost(es2));
    let ghost es3 = es2.push((p@, v@));
    let p = joined(path, "/Bottom");
    let v = dec_string(m.bottom);
    put(config, p.as_str(), v.as_str(), Ghost(base), Ghost(es3));
    let ghost es4 = es3.push((p@, v@));
    assert(es4 =~= margin_entries(path@, m));
}

/// The color behind a role name of the generator: the selection text or
/// background, else the window text.
pub open spec fn role_color(s: ColorScheme, role: Seq<char>) -> Rgb {
    if role == "selection_fg"@ {
        s.selection.fg_normal
    } else if role == "selection_bg"@ {
        s.selection.bg_normal
    } else {
        s.window.fg_normal
    }
}

/// The `#rrggbb` text of a role's color, as an opaque fcitx color.
pub fn theme_color(colors: &ColorScheme, role: &str) -> (r: String)
    ensures
        r@ == color_text(role_color(*colors, role@)),
{
    let v = crate::text::chars_of(role);
    let g = if crate::text::eq_str(&v, "selection_fg") {
        colors.selection.fg_normal
    } else if crate::text::eq_str(&v, "selection_bg") {
        colors.selection.bg_normal
    } else {
        colors.window.fg_normal
    };
    Color::from_rgba8(g.0, g.1, g.2, 255).to_hex_string()
}

/// Set the four margins below `path`, extending the entries set so far.
fn put_margins(config: &mut RawConfig, path: &str, m: Margins, Ghost(base): Ghost<Tree>, Ghost(es): Ghost<Seq<Entry>>)
    requires
        old(config)@ == apply_sets(base, es),
    ensures
        final(config)@ == apply_sets(base, es + margin_entries(path@, m)),
{
    set_margins_to_config(config, path, m);
    proof {
        lemma_apply_concat(base, es, margin_entries(path@, m));
    }
}

/// Set the metadata entries.
fn put_metadata(config: &mut RawConfig, name: &str)
    ensures
        final(config)@ == apply_sets(old(config)@, metadata_entries(name@)),
{
    let ghost base = config@;
    let ghost es = Seq::<Entry>::empty();
    put(config, "Metadata/Name", "Plasma", Ghost(base), Ghost(es));
    let ghost es = es.push(("Metadata/Name"@, "Plasma"@));
    put(config, "Metadata/Version", "1", Ghost(base), Ghost(es));
    let ghost es = es.push(("Metadata/Version"@, "1"@));
    put(config, "Metadata/Author", "Fcitx", Ghost(base), Ghost(es));
    let ghost es = es.push(("Metadata/Author"@, "Fcitx"@));
    let description = joined("Theme generated from Plasma Theme ", name);
    put(config, "Metadata/Description", description.as_str(), Ghost(base), Ghost(es));
    let ghost es = es.push(("Metadata/Description"@, description@));
    assert(es =~= metadata_entries(name@));
}

/// Set the input panel colors.
fn put_colors(config: &mut RawConfig, colors: &ColorScheme)
    ensures
        final(config)@ == apply_sets(old(config)@, color_entries(*colors)),
{
    let ghost base = config@;
    let fg = theme_color(colors, "window_fg");
    let sel_fg = theme_color(colors, "selection_fg");
    let sel_bg = theme_color(colors, "selection_bg");
    proof {
        reveal_strlit("window_fg");
        reveal_strlit("selection_fg");
        reveal_strlit("selection_bg");
        assert("window_fg"@[0] != "selection_fg"@[0]);
        assert("window_fg"@[0] != "selection_bg"@[0]);
        assert("selection_bg"@[10] != "selection_fg"@[10]);
        assert(role_color(*colors, "window_fg"@) == colors.window.fg_normal);
        assert(role_color(*colors, "selection_bg"@) == colors.selection.bg_normal);
    }
    let ghost es = Seq::<Entry>::empty();
    put(config, "InputPanel/NormalColor", fg.as_str(), Ghost(base), Ghost(es));
    let ghost es = es.push(("InputPanel/NormalColor"@, fg@));
    put(config, "InputPanel/HighlightCandidateColor", fg.as_str(), Ghost(base), Ghost(es));
    let ghost es = es.push(("InputPanel/HighlightCandidateColor"@, fg@));
    put(config, "InputPanel/HighlightColor", sel_fg.as_str(), Ghost(base), Ghost(es));
    let ghost es = es.push(("InputPanel/HighlightColor"@, sel_fg@));
    put(config, "InputPanel/HighlightBackgroundColor", sel_bg.as_str(), Ghost(base), Ghost(es));
    let ghost es = es.push(("InputPanel/HighlightBackgroundColor"@, sel_bg@));
    put(config, "InputPanel/PageButtonAlignment", "Last Candidate", Ghost(base), Ghost(es));
    let ghost es = es.push(("InputPanel/PageButtonAlignment"@, "Last Candidate"@));
    put(config, "InputPanel/NormalColor", fg.as_str(), Ghost(base), Ghost(es));
    let ghost es = es.push(("InputPanel/NormalColor"@, fg@));
    put(config, "InputPanel/HighlightCandidateColor", fg.as_str(), Ghost(base), Ghost(es));
    let ghost es = es.push(("InputPanel/HighlightCandidateColor"@, fg@));
    assert(es =~= color_entries(*colors));
}

/// Set the panel background entries.
fn put_panel(config: &mut RawConfig, layout: &PanelLayout, tm: i64)
    requires
        tm == text_margin(),
    ensures
        final(config)@ == apply_sets(old(config)@, panel_entries(*layout)),
{
    let l = *layout;
    let ghost base = config@;
    let ghost es = Seq::<Entry>::empty();
    let spacing = dec_string(tm);
    put(config, "Menu/Spacing", spacing.as_str(), Ghost(base), Ghost(es));
    let ghost es = es.push(("Menu/Spacing"@, spacing@));
    put_margins(config, "InputPanel/ContentMargin", l.content, Ghost(base), Ghost(es));
    let ghost es = es + margin_entries("InputPanel/ContentMargin"@, l.content);
    put_margins(config, "Menu/ContentMargin", l.content, Ghost(base), Ghost(es));
    let ghost es = es + margin_entries("Menu/ContentMargin"@, l.content);
    put_margins(config, "InputPanel/ShadowMargin", l.shadow, Ghost(base), Ghost(es));
    let ghost es = es + margin_entries("InputPanel/ShadowMargin"@, l.shadow);
    put(config, "InputPanel/Background/Image", "panel.png", Ghost(base), Ghost(es));
    let ghost es = es.push(("InputPanel/Background/Image"@, "panel.png"@));
    let ghost mut es = es;
    if l.blur_behind {
        put(config, "InputPanel/BlurMask", "mask.png", Ghost(base), Ghost(es));
        proof {
            es = es.push(("InputPanel/BlurMask"@, "mask.png"@));
        }
        put(config, "InputPanel/EnableBlur", "True", Ghost(base), Ghost(es));
        proof {
            es = es.push(("InputPanel/EnableBlur"@, "True"@));
        }
    }
    put(config, "Menu/Background/Image", "panel.png", Ghost(base), Ghost(es));
    proof {
        es = es.push(("Menu/Background/Image"@, "panel.png"@));
    }
    if l.blur_behind {
        put(config, "Menu/BlurMask", "mask.png", Ghost(base), Ghost(es));
        proof {
            es = es.push(("Menu/BlurMask"@, "mask.png"@));
        }
        put(config, "Menu/EnableBlur", "True", Ghost(base), Ghost(es));
        proof {
            es = es.push(("Menu/EnableBlur"@, "True"@));
        }
    }
    put_margins(config, "InputPanel/Background/Margin", l.content, Ghost(base), Ghost(es));
    proof {
        es = es + margin_entries("InputPanel/Background/Margin"@, l.content);
    }
    put_margins(config, "Menu/Background/Margin", l.content, Ghost(base), Ghost(es));
    proof {
        es = es + margin_entries("Menu/Background/Margin"@, l.content);
        assert(es =~= panel_entries(l));
    }
}

/// The larger of two margins.
fn max_i64(a: i64, b: i64) -> (r: i64)
    ensures
        r == max(a as int, b as int),
{
    if a >= b {
        a
    } else {
        b
    }
}

/// Set the highlight entries.
fn put_highlight(config: &mut RawConfig, layout: &PanelLayout, tm: i64)
    requires
        tm == text_margin(),
        layout.highlight.top < i64::MAX - 2,
        layout.highlight.bottom < i64::MAX - 2,
    ensures
        final(config)@ == apply_sets(old(config)@, highlight_entries(*layout)),
{
    let l = *layout;
    let h = Margins {
        left: max_i64(l.highlight.left, tm),
        top: max_i64(l.highlight.top, tm),
        right: max_i64(l.highlight.right, tm),
        bottom: max_i64(l.highlight.bottom, tm),
    };
    let text = Margins { top: h.top + tm, bottom: h.bottom + tm, ..h };
    let ghost base = config@;
    let ghost es = Seq::<Entry>::empty();
    put(config, "InputPanel/Highlight/Image", "highlight.png", Ghost(base), Ghost(es));
    let ghost es = es.push(("InputPanel/Highlight/Image"@, "highlight.png"@));
    put(config, "Menu/Highlight/Image", "highlight.png", Ghost(base), Ghost(es));
    let ghost es = es.push(("Menu/Highlight/Image"@, "highlight.png"@));
    put_margins(config, "InputPanel/Highlight/Margin", h, Ghost(base), Ghost(es));
    let ghost es = es + margin_entries("InputPanel/Highlight/Margin"@, h);
    put_margins(config, "Menu/Highlight/Margin", h, Ghost(base), Ghost(es));
    let ghost es = es + margin_entries("Menu/Highlight/Margin"@, h);
    put_margins(config, "InputPanel/TextMargin", text, Ghost(base), Ghost(es));
    let ghost es = es + margin_entries("InputPanel/TextMargin"@, text);
    put_margins(config, "Menu/TextMargin", h, Ghost(base), Ghost(es));
    let ghost es = es + margin_entries("Menu/TextMargin"@, h);
    assert(h == floored(l.highlight));
    assert(es =~= highlight_entries(l));
}

/// Set the icon entries.
fn put_icons(config: &mut RawConfig, layout: &PanelLayout)
    ensures
        final(config)@ == apply_sets(old(config)@, icon_entries(*layout)),
{
    let l = *layout;
    let ghost base = config@;
    let ghost mut es = Seq::<Entry>::empty();
    if l.prev_next {
        put(config, "InputPanel/PrevPage/Image", "prev.png", Ghost(base), Ghost(es));
        proof {
            es = es.push(("InputPanel/PrevPage/Image"@, "prev.png"@));
        }
        put(config, "InputPanel/NextPage/Image", "next.png", Ghost(base), Ghost(es));
        proof {
            es = es.push(("InputPanel/NextPage/Image"@, "next.png"@));
        }
    }
    if l.arrow {
        put(config, "Menu/SubMenu/Image", "arrow.png", Ghost(base), Ghost(es));
        proof {
            es = es.push(("Menu/SubMenu/Image"@, "arrow.png"@));
        }
    }
    if l.radio {
        put(config, "Menu/CheckBox/Image", "radio.png", Ghost(base), Ghost(es));
        proof {
            es = es.push(("Menu/CheckBox/Image"@, "radio.png"@));
        }
    }
    if l.line {
        put(config, "Menu/Separator/Image", "line.png", Ghost(base), Ghost(es));
        proof {
            es = es.push(("Menu/Separator/Image"@, "line.png"@));
        }
    }
    assert(es =~= icon_entries(l));
}

/// The `theme.conf` tree of a generated theme, set in this order:
/// metadata, input panel colors, panel background and
/// blur, highlight, then the icons that exist.
pub fn theme_config(theme_name: &str, colors: &ColorScheme, layout: &PanelLayout) -> (r: RawConfig)
    requires
        layout.highlight.top < i64::MAX - 2,
        layout.highlight.bottom < i64::MAX - 2,
    ensures
        r@ == apply_sets(fresh(""@), theme_entries(theme_name@, *colors, *layout)),
{
    let grid = grid_unit();
    let small_spacing = if grid / 4 > 2 {
        grid / 4
    } else {
        2
    };
    let text_margin = (small_spacing / 2) as i64;
    let mut config = RawConfig::new("");
    let ghost root = config@;
    put_metadata(&mut config, theme_name);
    put_colors(&mut config, colors);
    put_panel(&mut config, layout, text_margin);
    put_highlight(&mut config, layout, text_margin);
    put_icons(&mut config, layout);
    proof {
        let m = metadata_entries(theme_name@);
        let c = color_entries(*colors);
        let p = panel_entries(*layout);
        let h = highlight_entries(*layout);
        let i = icon_entries(*layout);
        lemma_apply_concat(root, m, c);
        lemma_apply_concat(root, m + c, p);
        lemma_apply_concat(root, m + c + p, h);
        lemma_apply_concat(root, m + c + p + h, i);
    }
    config
}

} // verus!
