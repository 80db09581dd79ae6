use std::io::Write;

use fcitx_autotheme::breeze::svg::svg_source;
use fcitx_autotheme::plasma::xml::substitute_color_scheme;
use fcitx_autotheme::svgz::decode_asset;

fn gzip(data: &[u8]) -> Vec<u8> {
    let mut enc = flate2::write::GzEncoder::new(Vec::new(), flate2::Compression::default());
    enc.write_all(data).expect("compress");
    enc.finish().expect("finish")
}

const DOC: &str = "<svg xmlns=\"http://www.w3.org/2000/svg\">\n  <style type=\"text/css\" id=\"current-color-scheme\">.A{color:#000;}</style>\n  <rect/>\n</svg>\n";

#[test]
fn substitution_keeps_the_rest_verbatim() {
    let out = substitute_color_scheme(DOC.as_bytes(), ".A{color:#fff;}").expect("substitute");
    assert_eq!(
        String::from_utf8(out).unwrap(),
        "<svg xmlns=\"http://www.w3.org/2000/svg\">\n  <style type=\"text/css\" id=\"current-color-scheme\">.A{color:#fff;}</style>\n  <rect/>\n</svg>\n"
    );
}

#[test]
fn substitution_errors() {
    assert_eq!(
        substitute_color_scheme(b"<svg><rect/></svg>", "x"),
        Err("svg has no current-color-scheme style element".to_owned())
    );
    let bad = substitute_color_scheme(&[0xc3, 0x28], "x").unwrap_err();
    assert!(bad.starts_with("svg is not utf-8: "));
    let unparsable = substitute_color_scheme(b"<svg>", "x").unwrap_err();
    assert!(unparsable.starts_with("failed to parse svg xml: "));
}

#[test]
fn source_decompresses_and_substitutes() {
    let packed = gzip(DOC.as_bytes());
    let plain = svg_source(&packed, "").expect("plain");
    assert_eq!(plain, DOC.as_bytes());
    let styled = svg_source(&packed, ".B{}").expect("styled");
    assert!(String::from_utf8(styled).unwrap().contains("id=\"current-color-scheme\">.B{}</style>"));
    let untouched = svg_source(DOC.as_bytes(), "").expect("untouched");
    assert_eq!(untouched, DOC.as_bytes());
}

#[test]
fn source_reports_broken_gzip() {
    let err = svg_source(&[0x1f, 0x8b, 0x00], "").unwrap_err();
    assert!(err.starts_with("failed to gunzip svgz: "));
}

#[test]
fn asset_decoding_follows_the_extension() {
    let packed = gzip(b"<svg/>");
    assert_eq!(decode_asset("/t/svg/dialogs/background.svgz", packed.clone()).expect("svgz"), b"<svg/>");
    assert_eq!(decode_asset("/t/svg/dialogs/background.svg", packed.clone()).expect("svg"), packed);
    assert!(decode_asset("/t/a.svgz", b"plain".to_vec()).is_err());
}
