use fcitx_autotheme::breeze::colorscheme::ColorScheme;
use fcitx_autotheme::breeze::generator::{grid_unit, theme_config, Margins, PanelLayout};
use fcitx_autotheme::breeze::ini::{write_ini, RawConfig};

fn value(config: &RawConfig, path: &str) -> Option<String> {
    config.get(path).map(|n| n.value().to_owned())
}

fn layout(blur: bool) -> PanelLayout {
    PanelLayout {
        shadow: Margins { left: 10, top: 8, right: 10, bottom: 12 },
        content: Margins { left: 16, top: 14, right: 16, bottom: 18 },
        blur_behind: blur,
        highlight: Margins { left: 1, top: 3, right: 2, bottom: 5 },
        prev_next: true,
        arrow: true,
        radio: false,
        line: true,
    }
}

#[test]
fn grid_unit_is_sixteen() {
    assert_eq!(grid_unit(), 16);
}

#[test]
fn theme_config_sets_colors_and_metadata() {
    let scheme = ColorScheme::load(None, None);
    let config = theme_config("breeze-dark", &scheme, &layout(true));
    assert_eq!(value(&config, "Metadata/Name").as_deref(), Some("Plasma"));
    assert_eq!(
        value(&config, "Metadata/Description").as_deref(),
        Some("Theme generated from Plasma Theme breeze-dark")
    );
    assert_eq!(value(&config, "InputPanel/NormalColor").as_deref(), Some("#232629"));
    assert_eq!(value(&config, "InputPanel/HighlightColor").as_deref(), Some("#ffffff"));
    assert_eq!(value(&config, "InputPanel/HighlightBackgroundColor").as_deref(), Some("#3daee9"));
    assert_eq!(value(&config, "Menu/Spacing").as_deref(), Some("2"));
}

#[test]
fn theme_config_margins_floor_highlight_at_text_margin() {
    let scheme = ColorScheme::load(None, None);
    let config = theme_config("t", &scheme, &layout(false));
    assert_eq!(value(&config, "InputPanel/ContentMargin/Left").as_deref(), Some("16"));
    assert_eq!(value(&config, "InputPanel/ShadowMargin/Bottom").as_deref(), Some("12"));
    assert_eq!(value(&config, "InputPanel/Highlight/Margin/Left").as_deref(), Some("2"));
    assert_eq!(value(&config, "InputPanel/Highlight/Margin/Top").as_deref(), Some("3"));
    assert_eq!(value(&config, "InputPanel/TextMargin/Top").as_deref(), Some("5"));
    assert_eq!(value(&config, "InputPanel/TextMargin/Bottom").as_deref(), Some("7"));
    assert_eq!(value(&config, "Menu/TextMargin/Top").as_deref(), Some("3"));
    assert!(config.get("InputPanel/BlurMask").is_none());
    assert!(config.get("Menu/CheckBox/Image").is_none());
    assert_eq!(value(&config, "Menu/Separator/Image").as_deref(), Some("line.png"));
}

#[test]
fn theme_config_blur_entries() {
    let scheme = ColorScheme::load(None, None);
    let config = theme_config("t", &scheme, &layout(true));
    assert_eq!(value(&config, "InputPanel/BlurMask").as_deref(), Some("mask.png"));
    assert_eq!(value(&config, "Menu/EnableBlur").as_deref(), Some("True"));
}

#[test]
fn theme_config_serializes_sections_in_order() {
    let scheme = ColorScheme::load(None, None);
    let config = theme_config("t", &scheme, &layout(false));
    let mut out = String::new();
    write_ini(&config, &mut out);
    let metadata = out.find("[Metadata]").unwrap();
    let panel = out.find("[InputPanel]").unwrap();
    let menu = out.find("[Menu]").unwrap();
    assert!(metadata < panel && panel < menu);
    assert!(out.contains("PageButtonAlignment=\"Last Candidate\"\n"));
}
