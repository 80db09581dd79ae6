//! The generator's settings and its `theme.conf` entries: which keys each
//! step sets, in which order, from the measured margins and the images
//! that exist (the rendering itself happens around these calls).

use vstd::prelude::*;
use crate::breeze::generator::Margins;
use crate::plasma::colors::{fcitx_string, Color, ThemeConfColors};
use crate::plasma::theme_conf::{set_path, Config, Section};
use crate::text::{dec, dec_int, push_dec, push_dec_i64, push_str};

verus! {

/// Output image format for the generated theme.
#[derive(Debug, Clone, Copy, PartialEq, Eq, Default)]
pub enum OutputFormat {
    /// Rasterized PNGs (the classic behavior; works on every fcitx5 version).
    #[default]
    Png,
    /// Vector SVGs, rendered by fcitx5 itself.
    Svg,
}

/// A theme generation run result.
#[derive(Debug)]
pub struct GeneratedTheme {
    /// The output directory.
    pub dir: String,
    /// Names of the files that were written.
    pub files: Vec<String>,
}

/// Generates fcitx5 classicui themes from a Plasma theme: the settings of
/// one run.
#[derive(Debug, Clone)]
pub struct ThemeGenerator {
    /// The directory the theme is written to.
    pub output_dir: String,
    /// The Plasma theme to use; the active theme when absent.
    pub theme_name: Option<String>,
    /// `QFontMetrics("M").height()` replacement (Plasma grid unit at 96 dpi).
    pub grid_unit: u32,
    /// Override for the active color scheme (a `.colors` file).
    pub colors_file: Option<String>,
    /// Color scheme name from the watcher, pinned when it can be resolved.
    pub color_scheme_name: Option<String>,
    /// Desktop accent color override for the Highlight role.
    pub accent_color: Option<Color>,
    /// Deepen highlight-driven colors by this many percent (0 = unchanged).
    pub highlight_deepen_percent: u8,
    /// Image format of the generated theme.
    pub format: OutputFormat,
}

impl ThemeGenerator {
    /// A generator writing into `output_dir`: the active theme and color
    /// scheme, grid unit 19, highlight deepening 10%, PNG images.
    pub fn new(output_dir: &str) -> (g: ThemeGenerator)
        ensures
            g.output_dir@ == output_dir@,
            g.theme_name is None,
            g.grid_unit == 19,
            g.colors_file is None,
            g.color_scheme_name is None,
            g.accent_color is None,
            g.highlight_deepen_percent == 10,
            g.format == OutputFormat::Png,
    {
        ThemeGenerator {
            output_dir: output_dir.to_owned(),
            theme_name: None,
            grid_unit: 19,
            colors_file: None,
            color_scheme_name: None,
            accent_color: None,
            highlight_deepen_percent: 10,
            format: OutputFormat::Png,
        }
    }

    /// Pin the Plasma theme by name; by default the active theme is used.
    pub fn with_theme_name(self, name: &str) -> (g: ThemeGenerator)
        ensures
            g.theme_name matches Some(n) && n@ == name@,
            g == (ThemeGenerator { theme_name: g.theme_name, ..self }),
    {
        ThemeGenerator { theme_name: Some(name.to_owned()), ..self }
    }

    /// Override the active color scheme with a `.colors` file.
    pub fn with_colors_file(self, path: &str) -> (g: ThemeGenerator)
        ensures
            g.colors_file matches Some(p) && p@ == path@,
            g == (ThemeGenerator { colors_file: g.colors_file, ..self }),
    {
        ThemeGenerator { colors_file: Some(path.to_owned()), ..self }
    }

    /// Pin the color scheme by name; when the name cannot be resolved on
    /// disk, the active scheme is used.
    pub fn with_color_scheme_name(self, name: &str) -> (g: ThemeGenerator)
        ensures
            g.color_scheme_name matches Some(n) && n@ == name@,
            g == (ThemeGenerator { color_scheme_name: g.color_scheme_name, ..self }),
    {
        ThemeGenerator { color_scheme_name: Some(name.to_owned()), ..self }
    }

    /// Override the theme's Highlight (accent) color.
    pub fn with_accent_color(self, accent: Color) -> (g: ThemeGenerator)
        ensures
            g == (ThemeGenerator { accent_color: Some(accent), ..self }),
    {
        ThemeGenerator { accent_color: Some(accent), ..self }
    }

    /// Deepen the highlight-driven colors by `percent` percent.
    pub fn with_highlight_deepening(self, percent: u8) -> (g: ThemeGenerator)
        ensures
            g == (ThemeGenerator { highlight_deepen_percent: percent, ..self }),
    {
        ThemeGenerator { highlight_deepen_percent: percent, ..self }
    }

    /// Override the grid unit (default 19, matching 96 dpi Plasma).
    pub fn with_grid_unit(self, grid_unit: u32) -> (g: ThemeGenerator)
        ensures
            g == (ThemeGenerator { grid_unit, ..self }),
    {
        ThemeGenerator { grid_unit, ..self }
    }

    /// Set the output image format.
    pub fn with_format(self, format: OutputFormat) -> (g: ThemeGenerator)
        ensures
            g == (ThemeGenerator { format, ..self }),
    {
        ThemeGenerator { format, ..self }
    }
}

/// The small spacing of a grid unit: a quarter of it, at least 2; the text
/// margin is half of it.
pub open spec fn small_spacing(grid_unit: u32) -> int {
    if grid_unit / 4 >= 2 {
        (grid_unit / 4) as int
    } else {
        2
    }
}

/// The text margin written with six decimals (`{:.6}` of half the small
/// spacing, which is whole or a half).
pub open spec fn spacing_text(grid_unit: u32) -> Seq<char> {
    let s = small_spacing(grid_unit);
    dec((s / 2) as nat) + if s % 2 == 0 {
        ".000000"@
    } else {
        ".500000"@
    }
}

impl ThemeGenerator {
    /// The `Menu/Spacing` text: the text margin, half the small spacing,
    /// with six decimals.
    pub fn spacing(&self) -> (s: String)
        ensures
            s@ == spacing_text(self.grid_unit),
    {
        let quarter = self.grid_unit / 4;
        let small = if quarter >= 2 {
            quarter
        } else {
            2
        };
        let mut s = String::new();
        push_dec(&mut s, (small / 2) as u64);
        if small % 2 == 0 {
            push_str(&mut s, ".000000");
        } else {
            push_str(&mut s, ".500000");
        }
        assert(s@ =~= spacing_text(self.grid_unit));
        s
    }
}

/// A configuration key path and the value set there.
pub type Entry = (Seq<char>, Seq<char>);

/// `s` after setting each entry in order.
pub open spec fn apply_entries(s: Section, es: Seq<Entry>) -> Section
    decreases es.len(),
{
    if es.len() == 0 {
        s
    } else {
        set_path(apply_entries(s, es.drop_last()), es.last().0, es.last().1)
    }
}

/// Setting one more entry.
pub proof fn lemma_apply_push(s: Section, es: Seq<Entry>, e: Entry)
    ensures
        apply_entries(s, es.push(e)) == set_path(apply_entries(s, es), e.0, e.1),
{
    assert(es.push(e).drop_last() =~= es);
}

/// Setting two lists of entries one after the other.
pub proof fn lemma_apply_concat(s: Section, a: Seq<Entry>, b: Seq<Entry>)
    ensures
        apply_entries(s, a + b) == apply_entries(apply_entries(s, a), b),
    decreases b.len(),
{
    if b.len() == 0 {
        assert(a + b =~= a);
    } else {
        lemma_apply_concat(s, a, b.drop_last());
        assert((a + b).drop_last() =~= a + b.drop_last());
    }
}

/// Set one entry, extending the entries set so far.
fn put(config: &mut Config, path: &str, value: &str, Ghost(base): Ghost<Section>, Ghost(es): Ghost<Seq<Entry>>)
    requires
        old(config)@ == apply_entries(base, es),
    ensures
        final(config)@ == apply_entries(base, es.push((path@, value@))),
{
    config.set(path, value);
    proof {
        lemma_apply_push(base, es, (path@, value@));
    }
}

/// `a` followed by `b`.
fn joined(a: &str, b: &str) -> (s: String)
    ensures
        s@ == a@ + b@,
{
    let mut s = String::new();
    push_str(&mut s, a);
    push_str(&mut s, b);
    assert(s@ =~= a@ + b@);
    s
}

/// The decimal text of `n`.
fn dec_string(n: i64) -> (s: String)
    ensures
        s@ == dec_int(n as int),
{
    let mut s = String::new();
    push_dec_i64(&mut s, n);
    assert(s@ =~= dec_int(n as int));
    s
}

/// The four entries `section/key/Left`, `/Top`, `/Right`, `/Bottom` with
/// the rounded margins.
pub open spec fn margin_entries(section: Seq<char>, key: Seq<char>, m: Margins) -> Seq<Entry> {
    let p = section + "/"@ + key;
    seq![
        (p + "/Left"@, dec_int(m.left as int)),
        (p + "/Top"@, dec_int(m.top as int)),
        (p + "/Right"@, dec_int(m.right as int)),
        (p + "/Bottom"@, dec_int(m.bottom as int)),
    ]
}

/// Set `section/key/{Left,Top,Right,Bottom}` to the rounded margins.
pub fn set_margins(config: &mut Config, section: &str, key: &str, margins: Margins)
    ensures
        final(config)@ == apply_entries(old(config)@, margin_entries(section@, key@, margins)),
{
    let ghost base = config@;
    let s1 = joined(section, "/");
    let p = joined(s1.as_str(), key);
    assert(apply_entries(base, Seq::empty()) == base);
    let k = joined(p.as_str(), "/Left");
    let v = dec_string(margins.left);
    put(config, k.as_str(), v.as_str(), Ghost(base), Ghost(Seq::empty()));
    let ghost es = Seq::<Entry>::empty().push((k@, v@));
    let k = joined(p.as_str(), "/Top");
    let v = dec_string(margins.top);
    put(config, k.as_str(), v.as_str(), Ghost(base), Ghost(es));
    let ghost es = es.push((k@, v@));
    let k = joined(p.as_str(), "/Right");
    let v = dec_string(margins.right);
    put(config, k.as_str(), v.as_str(), Ghost(base), Ghost(es));
    let ghost es = es.push((k@, v@));
    let k = joined(p.as_str(), "/Bottom");
    let v = dec_string(margins.bottom);
    put(config, k.as_str(), v.as_str(), Ghost(base), Ghost(es));
    let ghost es = es.push((k@, v@));
    assert(es =~= margin_entries(section@, key@, margins));
}

/// The metadata and input panel color entries, and the menu spacing.
pub open spec fn init_entries(grid_unit: u32, theme_name: Seq<char>, c: ThemeConfColors) -> Seq<Entry> {
    seq![
        ("Metadata/Name"@, "Plasma"@),
        ("Metadata/Version"@, "1"@),
        ("Metadata/Author"@, "Fcitx"@),
        ("Metadata/Description"@, "Theme generated from Plasma Theme "@ + theme_name),
        ("InputPanel/NormalColor"@, fcitx_string(c.normal)),
        ("InputPanel/HighlightCandidateColor"@, fcitx_string(c.normal)),
        ("InputPanel/HighlightColor"@, fcitx_string(c.highlighted)),
        ("InputPanel/HighlightBackgroundColor"@, fcitx_string(c.highlight_background)),
        ("InputPanel/PageButtonAlignment"@, "Last Candidate"@),
        ("Menu/Spacing"@, spacing_text(grid_unit)),
    ]
}

impl ThemeGenerator {
    /// Metadata and input-panel colors, plus the menu spacing, set in the
    /// reference order.
    pub fn init_config(&self, config: &mut Config, theme_name: &str, colors: &ThemeConfColors)
        ensures
            final(config)@ == apply_entries(
                old(config)@,
                init_entries(self.grid_unit, theme_name@, *colors),
            ),
    {
        let ghost base = config@;
        let ghost es = Seq::<Entry>::empty();
        put(config, "Metadata/Name", "Plasma", Ghost(base), Ghost(es));
        let ghost es = es.push(("Metadata/Name"@, "Plasma"@));
        put(config, "Metadata/Version", "1", Ghost(base), Ghost(es));
        let ghost es = es.push(("Metadata/Version"@, "1"@));
        put(config, "Metadata/Author", "Fcitx", Ghost(base), Ghost(es));
        let ghost es = es.push(("Metadata/Author"@, "Fcitx"@));
        let description = joined("Theme generated from Plasma Theme ", theme_name);
        put(config, "Metadata/Description", description.as_str(), Ghost(base), Ghost(es));
        let ghost es = es.push(("Metadata/Description"@, description@));
        let normal = colors.normal.to_fcitx_string();
        put(config, "InputPanel/NormalColor", normal.as_str(), Ghost(base), Ghost(es));
        let ghost es = es.push(("InputPanel/NormalColor"@, normal@));
        put(config, "InputPanel/HighlightCandidateColor", normal.as_str(), Ghost(base), Ghost(es));
        let ghost es = es.push(("InputPanel/HighlightCandidateColor"@, normal@));
        let highlighted = colors.highlighted.to_fcitx_string();
        put(config, "InputPanel/HighlightColor", highlighted.as_str(), Ghost(base), Ghost(es));
        let ghost es = es.push(("InputPanel/HighlightColor"@, highlighted@));
        let background = colors.highlight_background.to_fcitx_string();
        put(config, "InputPanel/HighlightBackgroundColor", background.as_str(), Ghost(base), Ghost(es));
        let ghost es = es.push(("InputPanel/HighlightBackgroundColor"@, background@));
        put(config, "InputPanel/PageButtonAlignment", "Last Candidate", Ghost(base), Ghost(es));
        let ghost es = es.push(("InputPanel/PageButtonAlignment"@, "Last Candidate"@));
        let spacing = self.spacing();
        put(config, "Menu/Spacing", spacing.as_str(), Ghost(base), Ghost(es));
        let ghost es = es.push(("Menu/Spacing"@, spacing@));
        assert(es =~= init_entries(self.grid_unit, theme_name@, *colors));
    }
}

/// The file name of image `stem` in the given format.
pub open spec fn image_file(stem: Seq<char>, format: OutputFormat) -> Seq<char> {
    stem + match format {
        OutputFormat::Png => ".png"@,
        OutputFormat::Svg => ".svg"@,
    }
}

/// The file name of image `stem` in the given format.
pub fn image_file_name(stem: &str, format: OutputFormat) -> (r: String)
    ensures
        r@ == image_file(stem@, format),
{
    match format {
        OutputFormat::Png => joined(stem, ".png"),
        OutputFormat::Svg => joined(stem, ".svg"),
    }
}

/// The panel entries: content and shadow margins, the background image and
/// its margins for the input panel and the menu, and the blur mask when
/// the theme asks for blur.
pub open spec fn panel_entries(format: OutputFormat, content: Margins, shadow: Margins, blur: bool) -> Seq<Entry> {
    let panel = image_file("panel"@, format);
    margin_entries("InputPanel"@, "ContentMargin"@, content) + margin_entries(
        "Menu"@,
        "ContentMargin"@,
        content,
    ) + margin_entries("InputPanel"@, "ShadowMargin"@, shadow) + seq![
        ("InputPanel/Background/Image"@, panel),
        ("Menu/Background/Image"@, panel),
    ] + margin_entries("InputPanel/Background"@, "Margin"@, content) + margin_entries(
        "Menu/Background"@,
        "Margin"@,
        content,
    ) + if blur {
        seq![
            ("InputPanel/BlurMask"@, image_file("mask"@, format)),
            ("InputPanel/EnableBlur"@, "True"@),
        ]
    } else {
        Seq::empty()
    }
}

/// Set the margins below `section/key`, extending the entries set so far.
fn put_margins(config: &mut Config, section: &str, key: &str, m: Margins, Ghost(base): Ghost<Section>, Ghost(es): Ghost<Seq<Entry>>)
    requires
        old(config)@ == apply_entries(base, es),
    ensures
        final(config)@ == apply_entries(base, es + margin_entries(section@, key@, m)),
{
    set_margins(config, section, key, m);
    proof {
        lemma_apply_concat(base, es, margin_entries(section@, key@, m));
    }
}

/// The panel's configuration entries: `content` margins measured from the
/// panel's outer edge (background hint margin plus shadow offset),
/// `shadow` margins, the background image of the given format, and the
/// blur mask when `blur`.
pub fn panel_config(config: &mut Config, format: OutputFormat, content: Margins, shadow: Margins, blur: bool)
    ensures
        final(config)@ == apply_entries(old(config)@, panel_entries(format, content, shadow, blur)),
{
    let ghost base = config@;
    let ghost es = Seq::<Entry>::empty();
    put_margins(config, "InputPanel", "ContentMargin", content, Ghost(base), Ghost(es));
    let ghost es = es + margin_entries("InputPanel"@, "ContentMargin"@, content);
    put_margins(config, "Menu", "ContentMargin", content, Ghost(base), Ghost(es));
    let ghost es = es + margin_entries("Menu"@, "ContentMargin"@, content);
    put_margins(config, "InputPanel", "ShadowMargin", shadow, Ghost(base), Ghost(es));
    let ghost es = es + margin_entries("InputPanel"@, "ShadowMargin"@, shadow);
    let panel = image_file_name("panel", format);
    put(config, "InputPanel/Background/Image", panel.as_str(), Ghost(base), Ghost(es));
    let ghost es = es.push(("InputPanel/Background/Image"@, panel@));
    put(config, "Menu/Background/Image", panel.as_str(), Ghost(base), Ghost(es));
    let ghost es = es.push(("Menu/Background/Image"@, panel@));
    put_margins(config, "InputPanel/Background", "Margin", content, Ghost(base), Ghost(es));
    let ghost es = es + margin_entries("InputPanel/Background"@, "Margin"@, content);
    put_margins(config, "Menu/Background", "Margin", content, Ghost(base), Ghost(es));
    let ghost es = es + margin_entries("Menu/Background"@, "Margin"@, content);
    let ghost mut es = es;
    if blur {
        let mask = image_file_name("mask", format);
        put(config, "InputPanel/BlurMask", mask.as_str(), Ghost(base), Ghost(es));
        proof {
            es = es.push(("InputPanel/BlurMask"@, mask@));
        }
        put(config, "InputPanel/EnableBlur", "True", Ghost(base), Ghost(es));
        proof {
            es = es.push(("InputPanel/EnableBlur"@, "True"@));
        }
    }
    assert(es =~= panel_entries(format, content, shadow, blur));
}

/// The highlight entries: the image, its margins, and the text margins of
/// the input panel (`panel_text`) and the menu (the highlight margins).
pub open spec fn highlight_entries(format: OutputFormat, margins: Margins, panel_text: Margins) -> Seq<Entry> {
    let image = image_file("highlight"@, format);
    seq![("InputPanel/Highlight/Image"@, image), ("Menu/Highlight/Image"@, image)]
        + margin_entries("InputPanel/Highlight"@, "Margin"@, margins) + margin_entries(
        "Menu/Highlight"@,
        "Margin"@,
        margins,
    ) + margin_entries("InputPanel"@, "TextMargin"@, panel_text) + margin_entries(
        "Menu"@,
        "TextMargin"@,
        margins,
    )
}

/// The highlight's configuration entries, given its margins (floored at
/// the text margin) and the input panel's text margins (those grown by the
/// text margin at top and bottom), both rounded.
pub fn highlight_config(config: &mut Config, format: OutputFormat, margins: Margins, panel_text: Margins)
    ensures
        final(config)@ == apply_entries(old(config)@, highlight_entries(format, margins, panel_text)),
{
    let ghost base = config@;
    let ghost es = Seq::<Entry>::empty();
    let image = image_file_name("highlight", format);
    put(config, "InputPanel/Highlight/Image", image.as_str(), Ghost(base), Ghost(es));
    let ghost es = es.push(("InputPanel/Highlight/Image"@, image@));
    put(config, "Menu/Highlight/Image", image.as_str(), Ghost(base), Ghost(es));
    let ghost es = es.push(("Menu/Highlight/Image"@, image@));
    put_margins(config, "InputPanel/Highlight", "Margin", margins, Ghost(base), Ghost(es));
    let ghost es = es + margin_entries("InputPanel/Highlight"@, "Margin"@, margins);
    put_margins(config, "Menu/Highlight", "Margin", margins, Ghost(base), Ghost(es));
    let ghost es = es + margin_entries("Menu/Highlight"@, "Margin"@, margins);
    put_margins(config, "InputPanel", "TextMargin", panel_text, Ghost(base), Ghost(es));
    let ghost es = es + margin_entries("InputPanel"@, "TextMargin"@, panel_text);
    put_margins(config, "Menu", "TextMargin", margins, Ghost(base), Ghost(es));
    let ghost es = es + margin_entries("Menu"@, "TextMargin"@, margins);
    assert(es =~= highlight_entries(format, margins, panel_text));
}

/// The icon entries for the images that exist: page arrows, submenu arrow,
/// radio button and separator line.
pub open spec fn icon_entries(format: OutputFormat, prev_next: bool, arrow: bool, radio: bool, line: bool) -> Seq<Entry> {
    (if prev_next {
        seq![
            ("InputPanel/PrevPage/Image"@, image_file("prev"@, format)),
            ("InputPanel/NextPage/Image"@, image_file("next"@, format)),
        ]
    } else {
        Seq::empty()
    }) + (if arrow {
        seq![("Menu/SubMenu/Image"@, image_file("arrow"@, format))]
    } else {
        Seq::empty()
    }) + (if radio {
        seq![("Menu/CheckBox/Image"@, image_file("radio"@, format))]
    } else {
        Seq::empty()
    }) + (if line {
        seq![("Menu/Separator/Image"@, image_file("line"@, format))]
    } else {
        Seq::empty()
    })
}

/// The icons' configuration entries, for the images that exist.
pub fn icon_config(config: &mut Config, format: OutputFormat, prev_next: bool, arrow: bool, radio: bool, line: bool)
    ensures
        final(config)@ == apply_entries(old(config)@, icon_entries(format, prev_next, arrow, radio, line)),
{
    let ghost base = config@;
    let ghost mut es = Seq::<Entry>::empty();
    if prev_next {
        let prev = image_file_name("prev", format);
        put(config, "InputPanel/PrevPage/Image", prev.as_str(), Ghost(base), Ghost(es));
        proof {
            es = es.push(("InputPanel/PrevPage/Image"@, prev@));
        }
        let next = image_file_name("next", format);
        put(config, "InputPanel/NextPage/Image", next.as_str(), Ghost(base), Ghost(es));
        proof {
            es = es.push(("InputPanel/NextPage/Image"@, next@));
        }
    }
    if arrow {
        let a = image_file_name("arrow", format);
        put(config, "Menu/SubMenu/Image", a.as_str(), Ghost(base), Ghost(es));
        proof {
            es = es.push(("Menu/SubMenu/Image"@, a@));
        }
    }
    if radio {
        let r = image_file_name("radio", format);
        put(config, "Menu/CheckBox/Image", r.as_str(), Ghost(base), Ghost(es));
        proof {
            es = es.push(("Menu/CheckBox/Image"@, r@));
        }
    }
    if line {
        let l = image_file_name("line", format);
        put(config, "Menu/Separator/Image", l.as_str(), Ghost(base), Ghost(es));
        proof {
            es = es.push(("Menu/Separator/Image"@, l@));
        }
    }
    assert(es =~= icon_entries(format, prev_next, arrow, radio, line));
}

/// Whether two entry lists set the same keys in the same order to the same
/// values, but for image files that differ only in extension (`.png` in
/// `a`, `.svg` in `b`).
pub open spec fn differ_in_extensions(a: Seq<Entry>, b: Seq<Entry>) -> bool {
    &&& a.len() == b.len()
    &&& forall|k: int|
        0 <= k < a.len() ==> (#[trigger] a[k]).0 == b[k].0 && (a[k].1 == b[k].1 || exists|stem: Seq<char>|
            #[trigger] image_file(stem, OutputFormat::Png) == a[k].1 && image_file(stem, OutputFormat::Svg)
                == b[k].1)
}

/// Entry lists that differ only in image extensions stay so when joined.
proof fn lemma_differ_concat(a1: Seq<Entry>, b1: Seq<Entry>, a2: Seq<Entry>, b2: Seq<Entry>)
    requires
        differ_in_extensions(a1, b1),
        differ_in_extensions(a2, b2),
    ensures
        differ_in_extensions(a1 + a2, b1 + b2),
{
    assert forall|k: int| 0 <= k < (a1 + a2).len() implies (#[trigger] (a1 + a2)[k]).0 == (b1 + b2)[k].0 && (
    (a1 + a2)[k].1 == (b1 + b2)[k].1 || exists|stem: Seq<char>|
        #[trigger] image_file(stem, OutputFormat::Png) == (a1 + a2)[k].1 && image_file(
            stem,
            OutputFormat::Svg,
        ) == (b1 + b2)[k].1) by {
        if k < a1.len() {
            assert((a1 + a2)[k] == a1[k]);
            assert((b1 + b2)[k] == b1[k]);
        } else {
            assert((a1 + a2)[k] == a2[k - a1.len()]);
            assert((b1 + b2)[k] == b2[k - a1.len()]);
        }
    }
}

/// A list that does not depend on the format differs from itself in no
/// way.
proof fn lemma_differ_same(a: Seq<Entry>)
    ensures
        differ_in_extensions(a, a),
{
}

/// One image entry in each format.
proof fn lemma_differ_image(key: Seq<char>, stem: Seq<char>)
    ensures
        differ_in_extensions(
            seq![(key, image_file(stem, OutputFormat::Png))],
            seq![(key, image_file(stem, OutputFormat::Svg))],
        ),
{
    let a = seq![(key, image_file(stem, OutputFormat::Png))];
    let b = seq![(key, image_file(stem, OutputFormat::Svg))];
    assert(a[0].1 == image_file(stem, OutputFormat::Png));
}

/// The SVG-format configuration differs from the PNG one only in the image
/// file extensions: the panel, highlight and icon entries set the same keys
/// in the same order, with the same margins and flags.
pub proof fn lemma_formats_differ_in_extensions(
    content: Margins,
    shadow: Margins,
    blur: bool,
    margins: Margins,
    panel_text: Margins,
    prev_next: bool,
    arrow: bool,
    radio: bool,
    line: bool,
)
    ensures
        differ_in_extensions(
            panel_entries(OutputFormat::Png, content, shadow, blur),
            panel_entries(OutputFormat::Svg, content, shadow, blur),
        ),
        differ_in_extensions(
            highlight_entries(OutputFormat::Png, margins, panel_text),
            highlight_entries(OutputFormat::Svg, margins, panel_text),
        ),
        differ_in_extensions(
            icon_entries(OutputFormat::Png, prev_next, arrow, radio, line),
            icon_entries(OutputFormat::Svg, prev_next, arrow, radio, line),
        ),
{
    let png = OutputFormat::Png;
    let svg = OutputFormat::Svg;
    // Panel.
    let m1 = margin_entries("InputPanel"@, "ContentMargin"@, content) + margin_entries(
        "Menu"@,
        "ContentMargin"@,
        content,
    ) + margin_entries("InputPanel"@, "ShadowMargin"@, shadow);
    lemma_differ_same(m1);
    let ip = seq![("InputPanel/Background/Image"@, image_file("panel"@, png))];
    let is = seq![("InputPanel/Background/Image"@, image_file("panel"@, svg))];
    let mp = seq![("Menu/Background/Image"@, image_file("panel"@, png))];
    let ms = seq![("Menu/Background/Image"@, image_file("panel"@, svg))];
    lemma_differ_image("InputPanel/Background/Image"@, "panel"@);
    lemma_differ_image("Menu/Background/Image"@, "panel"@);
    lemma_differ_concat(ip, is, mp, ms);
    assert(ip + mp =~= seq![
        ("InputPanel/Background/Image"@, image_file("panel"@, png)),
        ("Menu/Background/Image"@, image_file("panel"@, png)),
    ]);
    assert(is + ms =~= seq![
        ("InputPanel/Background/Image"@, image_file("panel"@, svg)),
        ("Menu/Background/Image"@, image_file("panel"@, svg)),
    ]);
    lemma_differ_concat(m1, m1, ip + mp, is + ms);
    let m2 = margin_entries("InputPanel/Background"@, "Margin"@, content) + margin_entries(
        "Menu/Background"@,
        "Margin"@,
        content,
    );
    lemma_differ_same(m2);
    lemma_differ_concat(m1 + (ip + mp), m1 + (is + ms), m2, m2);
    let bp: Seq<Entry> = if blur {
        seq![("InputPanel/BlurMask"@, image_file("mask"@, png)), ("InputPanel/EnableBlur"@, "True"@)]
    } else {
        Seq::empty()
    };
    let bs: Seq<Entry> = if blur {
        seq![("InputPanel/BlurMask"@, image_file("mask"@, svg)), ("InputPanel/EnableBlur"@, "True"@)]
    } else {
        Seq::empty()
    };
    if blur {
        lemma_differ_image("InputPanel/BlurMask"@, "mask"@);
        lemma_differ_same(seq![("InputPanel/EnableBlur"@, "True"@)]);
        lemma_differ_concat(
            seq![("InputPanel/BlurMask"@, image_file("mask"@, png))],
            seq![("InputPanel/BlurMask"@, image_file("mask"@, svg))],
            seq![("InputPanel/EnableBlur"@, "True"@)],
            seq![("InputPanel/EnableBlur"@, "True"@)],
        );
        assert(seq![("InputPanel/BlurMask"@, image_file("mask"@, png))] + seq![
            ("InputPanel/EnableBlur"@, "True"@),
        ] =~= bp);
        assert(seq![("InputPanel/BlurMask"@, image_file("mask"@, svg))] + seq![
            ("InputPanel/EnableBlur"@, "True"@),
        ] =~= bs);
    }
    lemma_differ_concat(m1 + (ip + mp) + m2, m1 + (is + ms) + m2, bp, bs);
    assert(panel_entries(png, content, shadow, blur) =~= m1 + (ip + mp) + m2 + bp);
    assert(panel_entries(svg, content, shadow, blur) =~= m1 + (is + ms) + m2 + bs);
    // Highlight.
    let hp = seq![
        ("InputPanel/Highlight/Image"@, image_file("highlight"@, png)),
        ("Menu/Highlight/Image"@, image_file("highlight"@, png)),
    ];
    let hs = seq![
        ("InputPanel/Highlight/Image"@, image_file("highlight"@, svg)),
        ("Menu/Highlight/Image"@, image_file("highlight"@, svg)),
    ];
    lemma_differ_image("InputPanel/Highlight/Image"@, "highlight"@);
    lemma_differ_image("Menu/Highlight/Image"@, "highlight"@);
    lemma_differ_concat(
        seq![("InputPanel/Highlight/Image"@, image_file("highlight"@, png))],
        seq![("InputPanel/Highlight/Image"@, image_file("highlight"@, svg))],
        seq![("Menu/Highlight/Image"@, image_file("highlight"@, png))],
        seq![("Menu/Highlight/Image"@, image_file("highlight"@, svg))],
    );
    assert(seq![("InputPanel/Highlight/Image"@, image_file("highlight"@, png))] + seq![
        ("Menu/Highlight/Image"@, image_file("highlight"@, png)),
    ] =~= hp);
    assert(seq![("InputPanel/Highlight/Image"@, image_file("highlight"@, svg))] + seq![
        ("Menu/Highlight/Image"@, image_file("highlight"@, svg)),
    ] =~= hs);
    let hm = margin_entries("InputPanel/Highlight"@, "Margin"@, margins) + margin_entries(
        "Menu/Highlight"@,
        "Margin"@,
        margins,
    ) + margin_entries("InputPanel"@, "TextMargin"@, panel_text) + margin_entries(
        "Menu"@,
        "TextMargin"@,
        margins,
    );
    lemma_differ_same(hm);
    lemma_differ_concat(hp, hs, hm, hm);
    assert(highlight_entries(png, margins, panel_text) =~= hp + hm);
    assert(highlight_entries(svg, margins, panel_text) =~= hs + hm);
    // Icons.
    let pp: Seq<Entry> = if prev_next {
        seq![("InputPanel/PrevPage/Image"@, image_file("prev"@, png)), ("InputPanel/NextPage/Image"@, image_file("next"@, png))]
    } else {
        Seq::empty()
    };
    let ps: Seq<Entry> = if prev_next {
        seq![("InputPanel/PrevPage/Image"@, image_file("prev"@, svg)), ("InputPanel/NextPage/Image"@, image_file("next"@, svg))]
    } else {
        Seq::empty()
    };
    if prev_next {
        lemma_differ_image("InputPanel/PrevPage/Image"@, "prev"@);
        lemma_differ_image("InputPanel/NextPage/Image"@, "next"@);
        lemma_differ_concat(
            seq![("InputPanel/PrevPage/Image"@, image_file("prev"@, png))],
            seq![("InputPanel/PrevPage/Image"@, image_file("prev"@, svg))],
            seq![("InputPanel/NextPage/Image"@, image_file("next"@, png))],
            seq![("InputPanel/NextPage/Image"@, image_file("next"@, svg))],
        );
        assert(seq![("InputPanel/PrevPage/Image"@, image_file("prev"@, png))] + seq![
            ("InputPanel/NextPage/Image"@, image_file("next"@, png)),
        ] =~= pp);
        assert(seq![("InputPanel/PrevPage/Image"@, image_file("prev"@, svg))] + seq![
            ("InputPanel/NextPage/Image"@, image_file("next"@, svg)),
        ] =~= ps);
    }
    let ap: Seq<Entry> = if arrow { seq![("Menu/SubMenu/Image"@, image_file("arrow"@, png))] } else { Seq::empty() };
    let as_: Seq<Entry> = if arrow { seq![("Menu/SubMenu/Image"@, image_file("arrow"@, svg))] } else { Seq::empty() };
    if arrow {
        lemma_differ_image("Menu/SubMenu/Image"@, "arrow"@);
    }
    let rp: Seq<Entry> = if radio { seq![("Menu/CheckBox/Image"@, image_file("radio"@, png))] } else { Seq::empty() };
    let rs: Seq<Entry> = if radio { seq![("Menu/CheckBox/Image"@, image_file("radio"@, svg))] } else { Seq::empty() };
    if radio {
        lemma_differ_image("Menu/CheckBox/Image"@, "radio"@);
    }
    let lp: Seq<Entry> = if line { seq![("Menu/Separator/Image"@, image_file("line"@, png))] } else { Seq::empty() };
    let ls: Seq<Entry> = if line { seq![("Menu/Separator/Image"@, image_file("line"@, svg))] } else { Seq::empty() };
    if line {
        lemma_differ_image("Menu/Separator/Image"@, "line"@);
    }
    lemma_differ_concat(pp, ps, ap, as_);
    lemma_differ_concat(pp + ap, ps + as_, rp, rs);
    lemma_differ_concat(pp + ap + rp, ps + as_ + rs, lp, ls);
    assert(icon_entries(png, prev_next, arrow, radio, line) =~= pp + ap + rp + lp);
    assert(icon_entries(svg, prev_next, arrow, radio, line) =~= ps + as_ + rs + ls);
}

} // verus!
