use fcitx_autotheme::plasma::error::Error;
use fcitx_autotheme::plasma::xml::{
    compose_document, emit_document, filter_frame, replace_style_block, FrameXml, KeepRule,
};

fn uniform_frame(prefix: &str, translate: Option<&str>) -> FrameXml {
    FrameXml {
        prefix: prefix.to_owned(),
        translate: translate.map(|t| t.to_owned()),
        transforms: (0..9).map(|_| Some("translate(0 0) scale(1 1)".to_owned())).collect(),
    }
}

#[test]
fn style_block_replacement() {
    let raw = br#"<?xml version="1.0"?>
<svg xmlns="http://www.w3.org/2000/svg" width="10" height="10">
  <style id="current-color-scheme">.ColorScheme-Background{color:#ff0000;}</style>
  <defs><linearGradient id="g"><stop offset="0"/></linearGradient></defs>
  <g id="top"><rect class="ColorScheme-Background" width="10" height="2"/></g>
</svg>"#;
    let replaced = replace_style_block(raw, ".ColorScheme-Background{color:#112233;}", "t").expect("replace");
    let text = replaced.as_str();
    assert!(text.contains(".ColorScheme-Background{color:#112233;}"));
    assert!(text.contains("id=\"top\""));
    assert!(!text.contains("#ff0000"));
    let tree = usvg::Tree::from_data(replaced.as_bytes(), &usvg::Options::default()).expect("parse");
    assert!(tree.node_by_id("top").is_some());
}

#[test]
fn frame_filtering_keeps_prefix_and_defs() {
    let raw = br#"<svg xmlns="http://www.w3.org/2000/svg" width="10" height="10">
  <defs><linearGradient id="g"/></defs>
  <g id="shadow-left"><rect width="1" height="10"/></g>
  <g id="shadow-center"><rect width="8" height="10"/></g>
  <rect id="hint-tile-center" width="1" height="1"/>
</svg>"#;
    let filtered = filter_frame(raw, "shadow").expect("filter");
    let text = filtered.as_str();
    assert!(text.contains("id=\"shadow-left\""));
    assert!(text.contains("id=\"shadow-center\""));
    assert!(!text.contains("hint-tile-center"));
    assert!(text.contains("id=\"g\""));
}

#[test]
fn empty_prefix_filter_excludes_unprefixed_hints() {
    let raw = br#"<svg xmlns="http://www.w3.org/2000/svg" width="120" height="64">
  <g id="top"><rect width="32" height="6"/></g>
  <rect id="hint-top-margin" x="20" y="10" width="4" height="4" style="fill:#ff00ff"/>
  <rect id="hint-left-margin" x="0" y="30" width="4" height="4" style="fill:#ff00ff"/>
  <g id="shadow-top"><rect width="32" height="16"/></g>
</svg>"#;
    let filtered = filter_frame(raw, "").expect("filter");
    let text = filtered.as_str();
    assert!(text.contains("id=\"top\""));
    assert!(!text.contains("hint-top-margin"), "top margin hint leaked");
    assert!(!text.contains("hint-left-margin"), "left margin hint leaked");
    assert!(!text.contains("shadow-top"), "shadow slice leaked into bg frame");
    println!("filtered: {text}");
}

#[test]
fn frame_filtering_excludes_hints_from_prefix_frames() {
    let raw = br#"<svg xmlns="http://www.w3.org/2000/svg" width="120" height="64">
  <g id="shadow-top"><rect width="32" height="16"/></g>
  <rect id="shadow-hint-top-margin" x="76" y="0" width="2" height="10" style="fill:#ff00ff"/>
  <rect id="shadow-hint-top-inset" x="76" y="0" width="2" height="1" style="fill:#00ff00"/>
  <rect id="hint-top-margin" x="20" y="10" width="4" height="4" style="fill:#ff00ff"/>
</svg>"#;
    let filtered = filter_frame(raw, "shadow").expect("filter");
    let text = filtered.as_str();
    assert!(text.contains("id=\"shadow-top\""));
    assert!(!text.contains("shadow-hint-top-margin"), "margin hint leaked");
    assert!(!text.contains("shadow-hint-top-inset"), "inset hint leaked");
    assert!(!text.contains("hint-top-margin"), "unprefixed hint leaked");
}

#[test]
fn emit_composed_places_slices_with_transforms() {
    let raw = br#"<svg xmlns="http://www.w3.org/2000/svg" width="40" height="30">
  <style id="current-color-scheme">.ColorScheme-Background{color:#ff0000;}</style>
  <defs><linearGradient id="g"/></defs>
  <g id="layer" transform="translate(5, 5)">
    <g id="top"><rect width="30" height="4"/></g>
    <g id="bottom"><rect width="30" height="4"/></g>
    <g id="left"><rect width="4" height="22"/></g>
    <g id="right"><rect width="4" height="22"/></g>
    <g id="center"><rect width="22" height="14"/></g>
    <g id="topleft"><rect width="4" height="4"/></g>
    <g id="topright"><rect width="4" height="4"/></g>
    <g id="bottomleft"><rect width="4" height="4"/></g>
    <g id="bottomright"><rect width="4" height="4"/></g>
  </g>
</svg>"#;
    let replaced = replace_style_block(raw, ".ColorScheme-Background{color:#112233;}", "t").expect("replace");
    let frames = vec![Ok(uniform_frame("", Some("translate(2 3)")))];
    let emitted = compose_document(replaced.as_bytes(), "t.svg", 20, 20, "0 0 20 20", &frames).expect("emit");
    let text = emitted.as_str();
    assert!(text.contains("xmlns=\"http://www.w3.org/2000/svg\""));
    assert!(text.contains("width=\"20\""));
    assert!(text.contains("viewBox=\"0 0 20 20\""));
    assert!(text.contains("translate(2 3)"));
    assert!(text.contains("id=\"g\""), "defs must survive");
    assert!(text.contains(".ColorScheme-Background{color:#112233;}"), "colors lost");
    assert!(!text.contains("id=\"layer\""), "ancestor id must be dropped");
    assert!(!text.contains("inkscape:"), "editor junk must be dropped");
    let tree = usvg::Tree::from_data(emitted.as_bytes(), &usvg::Options::default()).expect("parses");
    assert_eq!(tree.size().width(), 20.0);
}

#[test]
fn emit_element_scales_bbox_to_target_size() {
    let raw = br#"<svg xmlns="http://www.w3.org/2000/svg" width="24" height="24">
  <style id="current-color-scheme">.ColorScheme-Text{color:#000000;}</style>
  <defs><linearGradient id="g"/></defs>
  <path id="left-arrow" d="M0 0h16v16H0z" class="ColorScheme-Text"/>
</svg>"#;
    let replaced = replace_style_block(raw, ".ColorScheme-Text{color:#aabbcc;}", "t").expect("replace");
    let emitted = emit_document(replaced.as_bytes(), &KeepRule::Id("left-arrow".to_owned()), 22, 22, "0 0 16 16")
        .expect("emit");
    let text = emitted.as_str();
    assert!(text.contains("xmlns=\"http://www.w3.org/2000/svg\""));
    assert!(text.contains("width=\"22\""));
    assert!(text.contains("viewBox=\"0 0 16 16\""));
    assert!(text.contains("id=\"left-arrow\""));
    assert!(text.contains("id=\"g\""), "defs must survive");
    assert!(text.contains(".ColorScheme-Text{color:#aabbcc;}"), "colors lost");
}

#[test]
fn replacement_writes_exact_document() {
    let raw = br#"<svg xmlns="http://www.w3.org/2000/svg" width="4"><!-- note --><style id="current-color-scheme">old</style><g id="a"><rect/></g></svg>"#;
    let out = replace_style_block(raw, "new", "t").expect("replace");
    assert_eq!(
        out,
        "<svg xmlns=\"http://www.w3.org/2000/svg\" width=\"4\">\n    <style id=\"current-color-scheme\">\n        new\n    </style>\n    <g id=\"a\">\n        <rect/>\n    </g>\n</svg>\n"
    );
}

#[test]
fn empty_stylesheet_keeps_the_style_text() {
    let raw = br#"<svg xmlns="http://www.w3.org/2000/svg"><style id="current-color-scheme">.A{color:#010203;}</style></svg>"#;
    let out = replace_style_block(raw, "", "t").expect("replace");
    assert!(out.contains(".A{color:#010203;}"));
}

#[test]
fn editor_attributes_are_dropped_and_xlink_kept() {
    let raw = br##"<svg xmlns="http://www.w3.org/2000/svg" xmlns:xlink="http://www.w3.org/1999/xlink" xmlns:inkscape="http://www.inkscape.org/namespaces/inkscape" inkscape:version="1.4.2"><use xlink:href="#a" inkscape:label="x"/></svg>"##;
    let out = replace_style_block(raw, "", "t").expect("replace");
    assert!(out.contains("xmlns:xlink=\"http://www.w3.org/1999/xlink\""));
    assert!(out.contains("xlink:href=\"#a\""));
    assert!(!out.contains("inkscape"));
}

#[test]
fn invalid_utf8_is_reported_with_the_name() {
    let raw: &[u8] = &[0x3c, 0xff, 0xfe];
    match replace_style_block(raw, "", "dialogs/background") {
        Err(Error::Other(m)) => assert!(m.starts_with("invalid UTF-8 in dialogs/background: ")),
        other => panic!("unexpected {other:?}"),
    }
}

#[test]
fn unparsable_text_is_reported() {
    match filter_frame(b"<svg><g></svg>", "") {
        Err(Error::Other(m)) => assert!(m.starts_with("failed to filter SVG: ")),
        other => panic!("unexpected {other:?}"),
    }
    match emit_document(b"not xml", &KeepRule::Id("a".to_owned()), 1, 1, "0 0 1 1") {
        Err(Error::Other(m)) => assert!(m.starts_with("failed to parse SVG: ")),
        other => panic!("unexpected {other:?}"),
    }
}

#[test]
fn emit_keeps_only_the_chosen_element() {
    let raw = br#"<svg xmlns="http://www.w3.org/2000/svg" width="9" height="9" viewBox="0 0 9 9"><g id="wrap"><path id="a"/><path id="b"/></g><!-- c --></svg>"#;
    let out = emit_document(raw, &KeepRule::Id("b".to_owned()), 3, 4, "1 2 3 4").expect("emit");
    assert_eq!(
        out,
        "<svg xmlns=\"http://www.w3.org/2000/svg\" width=\"3\" height=\"4\" viewBox=\"1 2 3 4\">\n    <g id=\"wrap\">\n        <path id=\"b\"/>\n    </g>\n</svg>\n"
    );
}

#[test]
fn composed_frame_with_missing_slice_reports_it() {
    let raw = br#"<svg xmlns="http://www.w3.org/2000/svg"><g id="top"/></svg>"#;
    let frames = vec![Ok(uniform_frame("", None))];
    match compose_document(raw, "bg.svg", 20, 20, "0 0 20 20", &frames) {
        Err(Error::MissingElement { path, element }) => {
            assert_eq!(path, "bg.svg");
            assert_eq!(element, "bottom");
        },
        other => panic!("unexpected {other:?}"),
    }
    let frames: Vec<Result<FrameXml, String>> = vec![Err("shadow-left".to_owned())];
    match compose_document(raw, "bg.svg", 20, 20, "0 0 20 20", &frames) {
        Err(Error::MissingElement { element, .. }) => assert_eq!(element, "shadow-left"),
        other => panic!("unexpected {other:?}"),
    }
}

#[test]
fn composed_document_writes_defs_and_free_style_once() {
    let mut raw = String::from(r#"<svg xmlns="http://www.w3.org/2000/svg"><defs><style id="current-color-scheme">s</style></defs>"#);
    for name in ["top", "bottom", "left", "right", "center", "topleft", "topright", "bottomleft", "bottomright"] {
        raw.push_str(&format!("<g id=\"p-{name}\"><rect/></g>"));
    }
    raw.push_str("</svg>");
    let frames = vec![Ok(uniform_frame("p", None))];
    let out = compose_document(raw.as_bytes(), "x.svg", 8, 8, "0 0 8 8", &frames).expect("compose");
    assert_eq!(out.matches("current-color-scheme").count(), 1);
    assert_eq!(out.matches("<defs>").count(), 1);
    assert_eq!(out.matches("translate(0 0) scale(1 1)").count(), 9);
    assert!(out.contains("id=\"p-center\""));
}
