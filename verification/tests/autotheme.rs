use fcitx_autotheme::autotheme::{
    classify_accent_color, classify_color_scheme, handle_setting_changed, theme_update_generator,
    AccentColorChange, ColorSchemeChange, SettingValue, WatchAction, WatchEvent, WatchState,
};
use fcitx_autotheme::plasma::colors::Color;

#[test]
fn classifies_accent_color_changes() {
    let value = Some(Color::opaque(168, 48, 69));
    let mut last = None;
    assert!(matches!(classify_accent_color(value, &mut last), AccentColorChange::Changed(_)));
    assert!(matches!(classify_accent_color(value, &mut last), AccentColorChange::Unchanged));
    assert_eq!(last, Some(Color::opaque(168, 48, 69)));
    let other = Some(Color::opaque(0, 0, 0));
    assert!(matches!(classify_accent_color(other, &mut last), AccentColorChange::Changed(_)));
}

#[test]
fn unparsable_accent_keeps_cache() {
    let mut last = Some(Color::opaque(1, 2, 3));
    assert_eq!(classify_accent_color(None, &mut last), AccentColorChange::Unknown);
    assert_eq!(last, Some(Color::opaque(1, 2, 3)));
}

#[test]
fn classifies_color_scheme_changes() {
    let mut last = None;
    assert_eq!(
        classify_color_scheme(Some("Breeze Dark"), &mut last),
        ColorSchemeChange::Changed("Breeze Dark".to_owned())
    );
    assert_eq!(classify_color_scheme(Some("Breeze Dark"), &mut last), ColorSchemeChange::Unchanged);
    assert_eq!(classify_color_scheme(None, &mut last), ColorSchemeChange::Unknown);
    assert_eq!(last.as_deref(), Some("Breeze Dark"));
}

#[test]
fn setting_changes_decide_regeneration() {
    let mut scheme = None;
    let mut accent = None;
    let text = SettingValue::Text("Breeze".to_owned());
    assert!(handle_setting_changed("org.kde.kdeglobals.General", "ColorScheme", &text, &mut scheme, &mut accent));
    assert!(!handle_setting_changed("org.kde.kdeglobals.General", "ColorScheme", &text, &mut scheme, &mut accent));
    assert!(handle_setting_changed("org.kde.kdeglobals.General", "ColorScheme", &SettingValue::Other, &mut scheme, &mut accent));
    let red = SettingValue::Accent(Color::opaque(255, 0, 0));
    assert!(handle_setting_changed("org.freedesktop.appearance", "accent-color", &red, &mut scheme, &mut accent));
    assert!(!handle_setting_changed("org.freedesktop.appearance", "accent-color", &red, &mut scheme, &mut accent));
    assert!(!handle_setting_changed("org.freedesktop.appearance", "color-scheme", &red, &mut scheme, &mut accent));
    assert_eq!(scheme.as_deref(), Some("Breeze"));
    assert_eq!(accent, Some(Color::opaque(255, 0, 0)));
}

#[test]
fn watcher_debounces_and_regenerates() {
    let mut state = WatchState::new();
    let event = WatchEvent::Setting {
        namespace: "org.kde.kdeglobals.General".to_owned(),
        key: "ColorScheme".to_owned(),
        value: SettingValue::Text("Dark".to_owned()),
    };
    assert_eq!(state.step(&event), WatchAction::Wait);
    assert!(state.triggered);
    assert_eq!(state.step(&WatchEvent::PlasmaConfigChanged), WatchAction::Wait);
    assert_eq!(
        state.step(&WatchEvent::DebounceElapsed),
        WatchAction::Regenerate { color_scheme: Some("Dark".to_owned()), accent_color: None }
    );
    assert!(!state.triggered);
    assert_eq!(state.step(&event), WatchAction::Wait);
    assert!(!state.triggered);
    assert_eq!(state.step(&WatchEvent::SettingUnreadable), WatchAction::Wait);
    assert_eq!(state.step(&WatchEvent::StreamEnded), WatchAction::Exit);
    assert_eq!(state.step(&WatchEvent::Shutdown), WatchAction::Exit);
}

#[test]
fn update_generator_pins_cached_values() {
    let g = theme_update_generator("/o", Some("Dark"), Some(Color::opaque(1, 1, 1)));
    assert_eq!(g.output_dir, "/o");
    assert_eq!(g.color_scheme_name.as_deref(), Some("Dark"));
    assert_eq!(g.accent_color, Some(Color::opaque(1, 1, 1)));
    let plain = theme_update_generator("/o", None, None);
    assert!(plain.color_scheme_name.is_none() && plain.accent_color.is_none());
}

#[test]
fn signals_while_pending_only_restart_the_wait() {
    let mut state = WatchState::new();
    assert_eq!(state.step(&WatchEvent::PlasmaConfigChanged), WatchAction::Wait);
    let unrelated = WatchEvent::Setting {
        namespace: "org.kde.kdeglobals.KDE".to_owned(),
        key: "widgetStyle".to_owned(),
        value: SettingValue::Text("Breeze".to_owned()),
    };
    for _ in 0..3 {
        assert_eq!(state.step(&unrelated), WatchAction::Wait);
        assert_eq!(state.step(&WatchEvent::SettingUnreadable), WatchAction::Wait);
        assert_eq!(state.step(&WatchEvent::PlasmaConfigError), WatchAction::Wait);
        assert!(state.triggered);
    }
    assert!(state.last_color_scheme.is_none());
    assert!(matches!(state.step(&WatchEvent::DebounceElapsed), WatchAction::Regenerate { .. }));
    assert!(!state.triggered);
}

#[test]
fn repeated_accent_signal_is_quiet() {
    let mut state = WatchState::new();
    let accent = WatchEvent::Setting {
        namespace: "org.freedesktop.appearance".to_owned(),
        key: "accent-color".to_owned(),
        value: SettingValue::Accent(Color::opaque(10, 20, 30)),
    };
    assert_eq!(state.step(&accent), WatchAction::Wait);
    assert!(state.triggered);
    assert_eq!(
        state.step(&WatchEvent::DebounceElapsed),
        WatchAction::Regenerate { color_scheme: None, accent_color: Some(Color::opaque(10, 20, 30)) }
    );
    assert_eq!(state.step(&accent), WatchAction::Wait);
    assert!(!state.triggered);
}
