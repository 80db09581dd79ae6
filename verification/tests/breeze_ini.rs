use fcitx_autotheme::breeze::color::Color;
use fcitx_autotheme::breeze::ini::{escape_for_value, write_ini, RawConfig};

#[test]
fn test_to_hex() {
    assert_eq!(Color::from_rgba8(0xFC, 0xFC, 0xFC, 0xFF).to_hex_string(), "#fcfcfc");
    assert_eq!(Color::from_rgba8(0xFF, 0xFF, 0xFF, 0xFF).to_hex_string(), "#ffffff");
    assert_eq!(Color::from_rgba8(0x31, 0x68, 0x38, 0xFF).to_hex_string(), "#316838");
    assert_eq!(
        Color::from_rgba8(0x12, 0x34, 0x56, 0x78).to_hex_string(),
        "#12345678"
    );
}

#[test]
fn from_rgba8_widens_each_channel() {
    let c = Color::from_rgba8(0x00, 0x01, 0x80, 0xFF);
    assert_eq!((c.red, c.green, c.blue, c.alpha), (0, 257, 0x8080, 0xFFFF));
}

#[test]
fn test_escape() {
    assert_eq!(escape_for_value("plain"), "plain");
    assert_eq!(escape_for_value("has space"), "\"has space\"");
    assert_eq!(escape_for_value("a\"b"), "\"a\\\"b\"");
    assert_eq!(escape_for_value("line\nbreak"), "\"line\\nbreak\"");
    assert_eq!(escape_for_value("#fcfcfc"), "#fcfcfc");
}

#[test]
fn escape_control_characters() {
    assert_eq!(escape_for_value("a\tb\\c"), "\"a\\tb\\\\c\"");
    assert_eq!(escape_for_value(""), "");
}

#[test]
fn test_set_and_get() {
    let mut config = RawConfig::new("");
    config.set("Metadata/Name", "Plasma");
    assert_eq!(config.get("Metadata/Name").unwrap().value(), "Plasma");
    assert_eq!(
        config.child("Metadata").unwrap().child("Name").unwrap().value(),
        "Plasma"
    );
}

#[test]
fn get_missing_path_is_none() {
    let mut config = RawConfig::new("");
    config.set("A/B", "1");
    assert!(config.get("A/C").is_none());
    assert!(config.get("X").is_none());
    assert!(config.child("B").is_none());
}

#[test]
fn sub_mut_reuses_existing_child() {
    let mut config = RawConfig::new("");
    config.sub_mut("A").set_value("1");
    config.sub_mut("A").set("B", "2");
    assert_eq!(config.sub_items().len(), 1);
    assert_eq!(config.get("A").unwrap().value(), "1");
    assert_eq!(config.get("A/B").unwrap().value(), "2");
    assert!(config.has_sub_items());
    assert_eq!(config.sub_items()[0].name(), "A");
}

#[test]
fn test_serialize() {
    let mut config = RawConfig::new("");
    config.set("Metadata/Name", "Plasma");
    config.set("InputPanel/NormalColor", "#fcfcfc");
    config.set("InputPanel/PageButtonAlignment", "Last Candidate");
    config.set("InputPanel/Background/Image", "panel.png");
    config.set("InputPanel/Background/Margin/Left", "14");

    let mut out = String::new();
    write_ini(&config, &mut out);
    let expected = "[Metadata]\nName=Plasma\n\n[InputPanel]\nNormalColor=#fcfcfc\nPageButtonAlignment=\"Last Candidate\"\n\n[InputPanel/Background]\nImage=panel.png\n\n[InputPanel/Background/Margin]\nLeft=14\n\n";
    assert_eq!(out, expected);
}

#[test]
fn container_with_value_is_written_as_entry() {
    let mut config = RawConfig::new("");
    config.set("A", "top");
    config.set("A/B", "x");
    let mut out = String::new();
    write_ini(&config, &mut out);
    assert_eq!(out, "A=top\n\n[A]\nB=x\n\n");
}

#[test]
fn setting_a_path_twice_keeps_one_item_per_name() {
    let mut config = RawConfig::new("");
    config.set("A/x", "1");
    config.set("A/y", "2");
    config.set("A/x", "3");
    assert_eq!(config.sub_items().len(), 1);
    let a = config.child("A").unwrap();
    assert_eq!(a.sub_items().len(), 2);
    assert_eq!(a.sub_items()[0].name(), "x");
    assert_eq!(a.sub_items()[0].value(), "3");
    assert_eq!(a.sub_items()[1].name(), "y");
}

#[test]
fn set_leaves_other_values_and_sibling_order_alone() {
    let mut c = RawConfig::new("");
    c.set("A/x", "1");
    c.set("A/y", "2");
    c.set("B", "3");
    c.set("A/z", "4");
    c.set("A/x", "5");
    assert_eq!(c.get("A/y").unwrap().value(), "2");
    assert_eq!(c.get("B").unwrap().value(), "3");
    assert_eq!(c.get("A/x").unwrap().value(), "5");
    let top: Vec<&str> = c.sub_items().iter().map(|s| s.name()).collect();
    assert_eq!(top, vec!["A", "B"]);
    let under_a: Vec<&str> = c.get("A").unwrap().sub_items().iter().map(|s| s.name()).collect();
    assert_eq!(under_a, vec!["x", "y", "z"]);
    c.get_mut("A/w").set_value("6");
    c.sub_mut("B").set_value("7");
    let under_a: Vec<&str> = c.get("A").unwrap().sub_items().iter().map(|s| s.name()).collect();
    assert_eq!(under_a, vec!["x", "y", "z", "w"]);
    assert_eq!(c.sub_items().len(), 2);
    assert_eq!(c.get("B").unwrap().value(), "7");
    assert!(c.child("C").is_none());
    assert!(c.has_sub_items());
}
