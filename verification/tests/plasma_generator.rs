use fcitx_autotheme::breeze::generator::Margins;
use fcitx_autotheme::plasma::colors::{Color, ThemeConfColors};
use fcitx_autotheme::plasma::generator::{
    highlight_config, icon_config, image_file_name, panel_config, set_margins, OutputFormat,
    ThemeGenerator,
};
use fcitx_autotheme::plasma::svg::{id_has_prefix, matches_prefix, resolve_asset, slice_id};
use fcitx_autotheme::plasma::theme_conf::Config;

#[test]
fn generator_defaults_and_builders() {
    let g = ThemeGenerator::new("/out");
    assert_eq!(g.output_dir, "/out");
    assert_eq!(g.grid_unit, 19);
    assert_eq!(g.highlight_deepen_percent, 10);
    assert_eq!(g.format, OutputFormat::Png);
    let g = g
        .with_theme_name("breeze")
        .with_colors_file("/c.colors")
        .with_color_scheme_name("Breeze Dark")
        .with_accent_color(Color::opaque(1, 2, 3))
        .with_highlight_deepening(0)
        .with_grid_unit(12)
        .with_format(OutputFormat::Svg);
    assert_eq!(g.theme_name.as_deref(), Some("breeze"));
    assert_eq!(g.colors_file.as_deref(), Some("/c.colors"));
    assert_eq!(g.color_scheme_name.as_deref(), Some("Breeze Dark"));
    assert_eq!(g.accent_color, Some(Color::opaque(1, 2, 3)));
    assert_eq!(g.highlight_deepen_percent, 0);
    assert_eq!(g.grid_unit, 12);
    assert_eq!(g.format, OutputFormat::Svg);
}

#[test]
fn spacing_is_half_the_small_spacing() {
    assert_eq!(ThemeGenerator::new("o").spacing(), "2.000000");
    assert_eq!(ThemeGenerator::new("o").with_grid_unit(12).spacing(), "1.500000");
    assert_eq!(ThemeGenerator::new("o").with_grid_unit(3).spacing(), "1.000000");
}

#[test]
fn init_config_writes_metadata_colors_and_spacing() {
    let g = ThemeGenerator::new("o");
    let colors = ThemeConfColors {
        normal: Color::opaque(0xaa, 0xbb, 0xcc),
        highlighted: Color::opaque(0xff, 0xff, 0xff),
        highlight_background: Color { r: 1, g: 2, b: 3, a: 4 },
    };
    let mut config = Config::new();
    g.init_config(&mut config, "Breeze", &colors);
    let text = config.serialize();
    assert!(text.starts_with("[Metadata]\nName=Plasma\nVersion=1\nAuthor=Fcitx\nDescription=\"Theme generated from Plasma Theme Breeze\"\n"));
    assert!(text.contains("[InputPanel]\nNormalColor=#aabbcc\nHighlightCandidateColor=#aabbcc\nHighlightColor=#ffffff\nHighlightBackgroundColor=#01020304\nPageButtonAlignment=\"Last Candidate\"\n"));
    assert!(text.contains("[Menu]\nSpacing=2.000000\n"));
}

#[test]
fn margins_are_written_as_integers() {
    let mut config = Config::new();
    set_margins(&mut config, "InputPanel", "ShadowMargin", Margins { left: 1, top: -2, right: 3, bottom: 4 });
    assert_eq!(config.serialize(), "[InputPanel/ShadowMargin]\nLeft=1\nTop=-2\nRight=3\nBottom=4\n\n");
}

#[test]
fn panel_config_with_blur_in_svg_format() {
    let mut config = Config::new();
    let m = Margins { left: 1, top: 1, right: 1, bottom: 1 };
    panel_config(&mut config, OutputFormat::Svg, m, m, true);
    let text = config.serialize();
    assert!(text.contains("BlurMask=mask.svg\n"));
    assert!(text.contains("EnableBlur=True\n"));
    assert!(text.contains("[InputPanel/Background]\nImage=panel.svg\n"));
}

#[test]
fn highlight_and_icons_config() {
    let mut config = Config::new();
    let m = Margins { left: 2, top: 3, right: 4, bottom: 5 };
    let t = Margins { left: 2, top: 5, right: 4, bottom: 7 };
    highlight_config(&mut config, OutputFormat::Png, m, t);
    icon_config(&mut config, OutputFormat::Png, false, true, true, false);
    let text = config.serialize();
    assert!(text.contains("[InputPanel/Highlight]\nImage=highlight.png\n"));
    assert!(text.contains("[InputPanel/TextMargin]\nLeft=2\nTop=5\nRight=4\nBottom=7\n"));
    assert!(text.contains("[Menu/SubMenu]\nImage=arrow.png\n"));
    assert!(!text.contains("prev.png"));
    assert_eq!(image_file_name("line", OutputFormat::Svg), "line.svg");
}

#[test]
fn frame_slice_matching() {
    assert!(matches_prefix("top", ""));
    assert!(matches_prefix("shadow-bottomright", "shadow"));
    assert!(!matches_prefix("hint-top-margin", ""));
    assert!(!matches_prefix("shadow-hint-top-margin", "shadow"));
    assert!(!matches_prefix("top", "shadow"));
    assert_eq!(slice_id("", "center"), "center");
    assert_eq!(slice_id("mask", "center"), "mask-center");
    assert!(id_has_prefix("hover", "hover"));
    assert!(id_has_prefix("hover-top", "hover"));
    assert!(!id_has_prefix("hovering", "hover"));
}

#[test]
fn asset_resolution_order() {
    let found = resolve_asset("/t", "dialogs/background", |p: &str| p == "/t/dialogs/background.svg");
    assert_eq!(found.as_deref(), Some("/t/dialogs/background.svg"));
    let nested = resolve_asset("/t", "widgets/line", |_p: &str| true);
    assert_eq!(nested.as_deref(), Some("/t/svg/widgets/line.svgz"));
    assert_eq!(resolve_asset("/t", "x", |_p: &str| false), None);
}

#[test]
fn svg_and_png_configs_differ_only_in_extensions() {
    let m = |l: i64, t: i64, r: i64, b: i64| Margins { left: l, top: t, right: r, bottom: b };
    let build = |format: OutputFormat| {
        let mut config = Config::new();
        panel_config(&mut config, format, m(12, 10, 12, 14), m(4, 3, 4, 6), true);
        highlight_config(&mut config, format, m(5, 5, 5, 5), m(5, 9, 5, 9));
        icon_config(&mut config, format, true, true, true, true);
        config.serialize()
    };
    let png = build(OutputFormat::Png);
    let svg = build(OutputFormat::Svg);
    assert_ne!(png, svg);
    assert_eq!(svg.replace(".svg", ".png"), png);
}
