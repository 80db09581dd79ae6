use fcitx_autotheme::breeze::colorscheme::{
    default_for, kde_entry, parse_ini, parse_triplet, resolve_group, ColorScheme,
};
use fcitx_autotheme::breeze::ini::RawConfig;

#[test]
fn test_defaults() {
    let scheme = ColorScheme::load(None, None);
    assert_eq!(scheme.window.fg_normal, (35, 38, 41));
    assert_eq!(scheme.window.bg_normal, (239, 240, 241));
    assert_eq!(scheme.selection.bg_normal, (61, 174, 233));
    assert_eq!(scheme.selection.fg_normal, (255, 255, 255));
}

#[test]
fn test_stylesheet_contains_frame() {
    let scheme = ColorScheme::load(None, None);
    // The frame color: the window background mixed 20% toward its text.
    let css = scheme.stylesheet((198, 200, 201));
    assert!(css.contains(".ColorScheme-Background{color:#eff0f1;}"));
    assert!(css.contains(".ColorScheme-Text{color:#232629;}"));
    assert!(css.contains(".ColorScheme-Highlight{color:#3daee9;}"));
    assert!(css.contains(".ColorScheme-Frame{color:"));
}

#[test]
fn stylesheet_order_and_frame_value() {
    let scheme = ColorScheme::load(None, None);
    let css = scheme.stylesheet((1, 2, 3));
    assert!(css.starts_with(".ColorScheme-Text{color:#232629;}.ColorScheme-Background{color:#eff0f1;}"));
    assert!(css.ends_with(".ColorScheme-Frame{color:#010203;}"));
    assert_eq!(css.matches(".ColorScheme-").count(), 48);
}

#[test]
fn test_read_ini() {
    let text = "[Colors:Window]\nForegroundNormal=10,20,30\nBackgroundNormal=40,50,60\n\n[KDE]\ncontrast=4\n";
    let config = parse_ini(text).expect("groups");
    let scheme = ColorScheme::load(Some(&config), None);
    assert_eq!(scheme.window.fg_normal, (10, 20, 30));
    assert_eq!(scheme.window.bg_normal, (40, 50, 60));
    assert_eq!(scheme.window.fg_inactive, (112, 125, 138));
    assert_eq!(kde_entry(Some(&config), "contrast"), Some("4"));
}

#[test]
fn ini_without_groups_is_none() {
    assert!(parse_ini("key=value\n# comment\n").is_none());
    assert!(parse_ini("").is_none());
}

#[test]
fn ini_keys_trimmed_and_comments_skipped() {
    let config = parse_ini("# c\n[G]\n  a  =  b c \n#x=y\n[H]\nk=v=w\n").expect("groups");
    assert_eq!(config.get("G/a").map(|n| n.value()), Some("b c"));
    assert_eq!(config.get("H/k").map(|n| n.value()), Some("v=w"));
    assert!(config.get("G/#x").is_none());
}

#[test]
fn theme_colors_win_over_globals() {
    let theme = parse_ini("[Colors:View]\nForegroundNormal=1,2,3\n").unwrap();
    let globals = parse_ini("[Colors:View]\nForegroundNormal=9,9,9\nBackgroundNormal=4,5,6\n").unwrap();
    let g = resolve_group(Some(&theme), Some(&globals), "Colors:View");
    assert_eq!(g.fg_normal, (1, 2, 3));
    assert_eq!(g.bg_normal, (4, 5, 6));
    assert_eq!(g.deco_hover, default_for("Colors:View").deco_hover);
}

#[test]
fn unparsable_theme_color_falls_back_to_globals() {
    let theme = parse_ini("[Colors:Window]\nForegroundNormal=1,2\n").unwrap();
    let globals = parse_ini("[Colors:Window]\nForegroundNormal=7,8,9\n").unwrap();
    let g = resolve_group(Some(&theme), Some(&globals), "Colors:Window");
    assert_eq!(g.fg_normal, (7, 8, 9));
}

#[test]
fn triplet_parsing() {
    let mut node = RawConfig::new("k");
    node.set_value(" 1 , 2,3 ");
    assert_eq!(parse_triplet(Some(&node)), Some((1, 2, 3)));
    node.set_value("1,2,3,4");
    assert_eq!(parse_triplet(Some(&node)), Some((1, 2, 3)));
    node.set_value("1,2,256");
    assert_eq!(parse_triplet(Some(&node)), None);
    node.set_value("1,2");
    assert_eq!(parse_triplet(Some(&node)), None);
    node.set_value("+1,2,3");
    assert_eq!(parse_triplet(Some(&node)), Some((1, 2, 3)));
    assert_eq!(parse_triplet(None), None);
}

#[test]
fn complementary_defaults_are_dark() {
    let g = default_for("Colors:Complementary");
    assert_eq!(g.bg_normal, (42, 46, 50));
    assert_eq!(g.fg_normal, (252, 252, 252));
}
