use fcitx_autotheme::plasma::colors::{general_color_scheme_name, Color};
use fcitx_autotheme::plasma::theme_conf::{quote, Config};

#[test]
fn fcitx_color_string() {
    assert_eq!(Color::opaque(0xaa, 0xbb, 0xcc).to_fcitx_string(), "#aabbcc");
    assert_eq!(
        Color { r: 1, g: 2, b: 3, a: 128 }.to_fcitx_string(),
        "#01020380"
    );
}

#[test]
fn css_string_drops_alpha() {
    assert_eq!(Color { r: 1, g: 2, b: 3, a: 128 }.to_css_string(), "#010203");
}

#[test]
fn extract_color_scheme_name() {
    assert_eq!(
        general_color_scheme_name("[General]\nColorScheme=Breeze Dark\n[KDE]\n"),
        Some("Breeze Dark".to_owned())
    );
    assert_eq!(general_color_scheme_name("[General]\nAccentColor=1,2,3\n"), None);
}

#[test]
fn color_scheme_name_outside_general_is_ignored() {
    assert_eq!(general_color_scheme_name("[KDE]\nColorScheme=X\n"), None);
    assert_eq!(
        general_color_scheme_name("  [General]  \r\n ColorScheme = \"Quoted\" \r\n"),
        Some("Quoted".to_owned())
    );
}

#[test]
fn serializes_nested_sections() {
    let mut config = Config::new();
    config.set("InputPanel/NormalColor", "#aabbcc");
    config.set("InputPanel/PageButtonAlignment", "Last Candidate");
    config.set("InputPanel/Background/Image", "panel.png");
    config.set("Menu/Spacing", "2.000000");
    let text = config.serialize();
    assert!(text.contains("[InputPanel]\nNormalColor=#aabbcc\n"));
    assert!(text.contains("PageButtonAlignment=\"Last Candidate\"\n"));
    assert!(text.contains("[InputPanel/Background]\nImage=panel.png\n"));
    assert!(text.contains("[Menu]\nSpacing=2.000000\n"));
}

#[test]
fn insertion_order_preserved() {
    let mut config = Config::new();
    config.set("B/x", "1");
    config.set("A/y", "2");
    let text = config.serialize();
    assert!(text.find("[B]").expect("B") < text.find("[A]").expect("A"));
}

#[test]
fn overwrite_keeps_position() {
    let mut config = Config::new();
    config.set("S/a", "1");
    config.set("S/b", "2");
    config.set("S/a", "3");
    let text = config.serialize();
    assert!(text.find("a=3").expect("a") < text.find("b=2").expect("b"));
}

#[test]
fn serialize_exact_layout() {
    let mut config = Config::new();
    config.set("top", "v");
    config.set("S/a", "x y");
    config.set("S/T/b", "q\"r");
    assert_eq!(config.serialize(), "top=v\n\n[S]\na=\"x y\"\n\n[S/T]\nb=\"q\\\"r\"\n\n");
}

#[test]
fn quote_cases() {
    assert_eq!(quote("plain"), "plain");
    assert_eq!(quote("a\tb"), "\"a\tb\"");
    assert_eq!(quote("say \"hi\""), "\"say \\\"hi\\\"\"");
}

#[test]
fn setting_one_path_leaves_the_others() {
    let mut config = Config::new();
    config.set("S/a", "1");
    config.set("S/T/a", "2");
    config.set("a", "3");
    config.set("S/a", "4");
    assert_eq!(config.serialize(), "a=3\n\n[S]\na=4\n\n[S/T]\na=2\n\n");
}
