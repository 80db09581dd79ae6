use fcitx_autotheme::plasma::theme_resolver::{active_theme_name, read_key, theme_blur_behind};

#[test]
fn reads_kconfig_key() {
    let text = "[Theme]\ncurrentTheme=Ant-Dark\n[Wallpapers]\nfoo=bar\n";
    assert_eq!(read_key(text, "Theme", "currentTheme"), Some("Ant-Dark".to_owned()));
    assert_eq!(read_key(text, "Theme", "missing"), None);
}

#[test]
fn default_theme_name() {
    assert_eq!(active_theme_name(None), "default");
}

#[test]
fn active_theme_name_reads_plasmarc() {
    assert_eq!(active_theme_name(Some("[Theme]\ncurrentTheme=Ant-Dark\n")), "Ant-Dark");
}

#[test]
fn blur_behind_defaults_to_true() {
    assert!(theme_blur_behind(None));
}
