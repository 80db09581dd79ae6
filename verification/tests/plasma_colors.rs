use fcitx_autotheme::plasma::colors::{key_name, normalize_key, Color, ColorKey, ColorScheme, StyleSheetColor};

fn rgb_to_hsl(r: u8, g: u8, b: u8) -> (f32, f32, f32) {
    let r = f32::from(r) / 255.0;
    let g = f32::from(g) / 255.0;
    let b = f32::from(b) / 255.0;
    let max = r.max(g).max(b);
    let min = r.min(g).min(b);
    let lightness = (max + min) / 2.0;
    if max == min {
        return (0.0, 0.0, lightness);
    }
    let delta = max - min;
    let saturation = if lightness > 0.5 {
        delta / (2.0 - max - min)
    } else {
        delta / (max + min)
    };
    let hue = if max == r {
        (g - b) / delta + if g < b { 6.0 } else { 0.0 }
    } else if max == g {
        (b - r) / delta + 2.0
    } else {
        (r - g) / delta + 4.0
    };
    (hue / 6.0, saturation, lightness)
}

fn hue_to_rgb(p: f32, q: f32, mut t: f32) -> f32 {
    if t < 0.0 {
        t += 1.0;
    }
    if t > 1.0 {
        t -= 1.0;
    }
    if t < 1.0 / 6.0 {
        p + (q - p) * 6.0 * t
    } else if t < 0.5 {
        q
    } else if t < 2.0 / 3.0 {
        p + (q - p) * (2.0 / 3.0 - t) * 6.0
    } else {
        p
    }
}

fn hsl_to_rgb(hue: f32, saturation: f32, lightness: f32) -> (u8, u8, u8) {
    if saturation <= 0.0 {
        let value = (lightness * 255.0).round().clamp(0.0, 255.0) as u8;
        return (value, value, value);
    }
    let q = if lightness < 0.5 {
        lightness * (1.0 + saturation)
    } else {
        lightness + saturation - lightness * saturation
    };
    let p = 2.0 * lightness - q;
    let channel = |t: f32| (hue_to_rgb(p, q, t) * 255.0).round().clamp(0.0, 255.0) as u8;
    (channel(hue + 1.0 / 3.0), channel(hue), channel(hue - 1.0 / 3.0))
}

/// The saturation step of highlight deepening for `percent`.
fn boost(percent: u8) -> impl Fn(Color) -> Color {
    move |c: Color| {
        let factor = 1.0 + f32::from(percent) / 100.0;
        let (h, s, l) = rgb_to_hsl(c.r, c.g, c.b);
        let (r, g, b) = hsl_to_rgb(h, (s * factor).min(1.0), l);
        Color { r, g, b, a: c.a }
    }
}

#[test]
fn parses_legacy_colors_file() {
    let text = "[Colors:Window]\nBackground=#112233\nForeground=#aabbcc\n";
    let scheme = ColorScheme::parse(text, "test").expect("parse");
    assert_eq!(scheme.named_color(StyleSheetColor::Text), Color::opaque(0xaa, 0xbb, 0xcc));
    assert_eq!(scheme.named_color(StyleSheetColor::Background), Color::opaque(0x11, 0x22, 0x33));
}

#[test]
fn parses_kdeglobals_new_format() {
    let text = "[Colors:Window]\nBackgroundNormal=17,34,51\nForegroundNormal=170,187,204\n[Colors:Selection]\nBackgroundNormal=255,136,0\n";
    let scheme = ColorScheme::parse(text, "test").expect("parse");
    assert_eq!(scheme.named_color(StyleSheetColor::Text), Color::opaque(170, 187, 204));
    assert_eq!(scheme.named_color(StyleSheetColor::Highlight), Color::opaque(255, 136, 0));
}

#[test]
fn button_focus_uses_button_group_first() {
    let text = "[Colors:Window]\nDecorationFocus=#ffffff\nDecorationHover=#eeeeee\n[Colors:View]\nDecorationFocus=#dddddd\nDecorationHover=#cccccc\n[Colors:Button]\nDecorationFocus=#101010\nDecorationHover=#202020\n";
    let scheme = ColorScheme::parse(text, "test").expect("parse");
    assert_eq!(scheme.named_color(StyleSheetColor::ButtonFocus), Color::opaque(0x10, 0x10, 0x10));
    assert_eq!(scheme.named_color(StyleSheetColor::ButtonHover), Color::opaque(0x20, 0x20, 0x20));
    assert_eq!(scheme.named_color(StyleSheetColor::ViewFocus), Color::opaque(0xdd, 0xdd, 0xdd));
}

#[test]
fn accent_reaches_all_decoration_groups() {
    let text = "[Colors:Window]\nDecorationFocus=#556677\n[Colors:Button]\nDecorationFocus=#667788\n[Colors:View]\nDecorationFocus=#445566\n";
    let accent = Color::opaque(0xe9, 0x3d, 0x58);
    let scheme = ColorScheme::parse(text, "test").expect("parse").with_accent_color(accent);
    assert_eq!(scheme.named_color(StyleSheetColor::ButtonFocus), accent);
    assert_eq!(scheme.named_color(StyleSheetColor::ButtonHover), accent);
    assert_eq!(scheme.named_color(StyleSheetColor::ViewFocus), accent);
    assert_eq!(scheme.named_color(StyleSheetColor::TooltipFocus), accent);
    assert_eq!(scheme.named_color(StyleSheetColor::Highlight), accent);
}

#[test]
fn highlight_deepening_scopes_decoration_and_highlight() {
    let text = "[Colors:Window]\nBackground=#ffffff\nDecorationFocus=#aaaaaa\nDecorationHover=#bbbbbb\n[Colors:Selection]\nBackground=#ff8800\nForeground=#ffffff\n";
    let scheme = ColorScheme::parse(text, "test").expect("parse");
    let deep = scheme.clone().with_highlight_deepening(10, boost(10));
    assert_eq!(deep.named_color(StyleSheetColor::ButtonFocus), Color::opaque(0x99, 0x99, 0x99));
    assert_eq!(deep.named_color(StyleSheetColor::ButtonHover), Color::opaque(0xa8, 0xa8, 0xa8));
    assert_eq!(deep.named_color(StyleSheetColor::Highlight), Color::opaque(0xe5, 0x7a, 0x00));
    assert_eq!(deep.named_color(StyleSheetColor::Background), Color::opaque(0xff, 0xff, 0xff));
    assert_eq!(deep.named_color(StyleSheetColor::HighlightedText), Color::opaque(0xff, 0xff, 0xff));
    assert_eq!(
        scheme.named_color(StyleSheetColor::ButtonFocus),
        scheme.clone().with_highlight_deepening(0, boost(0)).named_color(StyleSheetColor::ButtonFocus)
    );
}

#[test]
fn invalid_color_value_is_reported() {
    let text = "[Colors:Window]\nBackground=#12345\n";
    assert!(ColorScheme::parse(text, "test").is_err());
}

#[test]
fn deepening_keeps_a_background_that_falls_back_on_the_selection() {
    let text = "[Colors:Selection]\nBackground=200,200,200\n";
    let scheme = ColorScheme::parse(text, "test").expect("parse");
    let deep = scheme.clone().with_highlight_deepening(10, |c: Color| c);
    assert_eq!(deep.named_color(StyleSheetColor::Background), Color::opaque(200, 200, 200));
    assert_eq!(deep.named_color(StyleSheetColor::ViewBackground), Color::opaque(200, 200, 200));
    assert_eq!(deep.named_color(StyleSheetColor::Highlight), Color::opaque(180, 180, 180));
}

#[test]
fn deepening_with_any_boost_keeps_text_and_backgrounds() {
    let text = "[Colors:Window]\nBackgroundNormal=10,20,30\nForegroundNormal=40,50,60\n\
                [Colors:Selection]\nBackgroundNormal=200,100,50\nForegroundNormal=1,2,3\n";
    let scheme = ColorScheme::parse(text, "test").expect("parse");
    let deep = scheme.clone().with_highlight_deepening(30, |_c: Color| Color::opaque(255, 0, 0));
    for role in [
        StyleSheetColor::Text,
        StyleSheetColor::Background,
        StyleSheetColor::HighlightedText,
        StyleSheetColor::ViewBackground,
        StyleSheetColor::ButtonText,
    ] {
        assert_eq!(deep.named_color(role), scheme.named_color(role));
    }
    assert_eq!(deep.named_color(StyleSheetColor::Highlight), Color::opaque(255, 0, 0));
    let same = scheme.clone().with_highlight_deepening(0, |_c: Color| Color::opaque(255, 0, 0));
    assert_eq!(same.named_color(StyleSheetColor::Highlight), scheme.named_color(StyleSheetColor::Highlight));
}

#[test]
fn css_names_are_the_variant_names_and_distinct() {
    let roles = [
        StyleSheetColor::Text,
        StyleSheetColor::Background,
        StyleSheetColor::Highlight,
        StyleSheetColor::HighlightedText,
        StyleSheetColor::PositiveText,
        StyleSheetColor::NeutralText,
        StyleSheetColor::NegativeText,
        StyleSheetColor::ButtonText,
        StyleSheetColor::ButtonBackground,
        StyleSheetColor::ButtonHover,
        StyleSheetColor::ButtonFocus,
        StyleSheetColor::ButtonHighlightedText,
        StyleSheetColor::ButtonPositiveText,
        StyleSheetColor::ButtonNeutralText,
        StyleSheetColor::ButtonNegativeText,
        StyleSheetColor::ViewText,
        StyleSheetColor::ViewBackground,
        StyleSheetColor::ViewHover,
        StyleSheetColor::ViewFocus,
        StyleSheetColor::ViewHighlightedText,
        StyleSheetColor::ViewPositiveText,
        StyleSheetColor::ViewNeutralText,
        StyleSheetColor::ViewNegativeText,
        StyleSheetColor::TooltipText,
        StyleSheetColor::TooltipBackground,
        StyleSheetColor::TooltipHover,
        StyleSheetColor::TooltipFocus,
        StyleSheetColor::TooltipHighlightedText,
        StyleSheetColor::TooltipPositiveText,
        StyleSheetColor::TooltipNeutralText,
        StyleSheetColor::TooltipNegativeText,
        StyleSheetColor::ComplementaryText,
        StyleSheetColor::ComplementaryBackground,
        StyleSheetColor::ComplementaryHover,
        StyleSheetColor::ComplementaryFocus,
        StyleSheetColor::ComplementaryHighlightedText,
        StyleSheetColor::ComplementaryPositiveText,
        StyleSheetColor::ComplementaryNeutralText,
        StyleSheetColor::ComplementaryNegativeText,
        StyleSheetColor::HeaderText,
        StyleSheetColor::HeaderBackground,
        StyleSheetColor::HeaderHover,
        StyleSheetColor::HeaderFocus,
        StyleSheetColor::HeaderHighlightedText,
        StyleSheetColor::HeaderPositiveText,
        StyleSheetColor::HeaderNeutralText,
        StyleSheetColor::HeaderNegativeText,
        StyleSheetColor::Frame,
    ];
    for (i, a) in roles.iter().enumerate() {
        assert_eq!(a.css_name(), format!("{:?}", a));
        for b in roles.iter().skip(i + 1) {
            assert_ne!(a.css_name(), b.css_name());
        }
    }
}

#[test]
fn key_names_read_back_as_their_keys() {
    let keys = [
        ColorKey::Background,
        ColorKey::Foreground,
        ColorKey::DecorationFocus,
        ColorKey::DecorationHover,
        ColorKey::Highlight,
        ColorKey::HighlightedText,
        ColorKey::Link,
        ColorKey::Visited,
        ColorKey::PositiveText,
        ColorKey::NeutralText,
        ColorKey::NegativeText,
        ColorKey::Frame,
    ];
    for k in keys {
        assert_eq!(normalize_key(key_name(k)), Some(k));
        assert_eq!(normalize_key(&format!(" {} ", key_name(k))), Some(k));
    }
    assert_eq!(normalize_key("BackgroundNormal"), Some(ColorKey::Background));
    assert_eq!(normalize_key("ForegroundNormal"), Some(ColorKey::Foreground));
    assert_eq!(normalize_key("ForegroundInactive"), None);
}
