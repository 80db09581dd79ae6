use fcitx_autotheme::breeze::cli::{parse_args, Args, CliExit};
use fcitx_autotheme::breeze::theme::{image_path, locate_theme, read_blur_behind};

fn strings(v: &[&str]) -> Vec<String> {
    v.iter().map(|s| (*s).to_owned()).collect()
}

#[test]
fn test_locate_default() {
    let roots = strings(&["/home/u/.local/share", "/usr/share"]);
    let found = locate_theme(&roots, "definitely-not-a-real-theme", |p: &str| {
        p == "/usr/share/plasma/desktoptheme/default"
    });
    let (name, dir) = found.expect("default theme");
    assert_eq!(name, "default");
    assert_eq!(dir, "/usr/share/plasma/desktoptheme/default");
}

#[test]
fn locate_prefers_named_theme_on_first_root() {
    let roots = strings(&["/a", "/b"]);
    let found = locate_theme(&roots, "breeze", |p: &str| p.ends_with("/breeze") || p.ends_with("/default"));
    assert_eq!(found, Some(("breeze".to_owned(), "/a/plasma/desktoptheme/breeze".to_owned())));
    assert_eq!(locate_theme(&roots, "x", |_p: &str| false), None);
}

#[test]
fn image_path_tries_svgz_then_svg_then_default() {
    let roots = strings(&["/r"]);
    let hit = image_path(&roots, "t", "dialogs/background", |p: &str| {
        p == "/r/plasma/desktoptheme/default/dialogs/background.svg"
    });
    assert_eq!(hit.as_deref(), Some("/r/plasma/desktoptheme/default/dialogs/background.svg"));
    let first = image_path(&roots, "t", "widgets/line", |_p: &str| true);
    assert_eq!(first.as_deref(), Some("/r/plasma/desktoptheme/t/widgets/line.svgz"));
}

#[test]
fn image_path_rejects_empty_and_parent_paths() {
    let roots = strings(&["/r"]);
    assert_eq!(image_path(&roots, "t", "", |_p: &str| true), None);
    assert_eq!(image_path(&roots, "t", "../secret", |_p: &str| true), None);
}

#[test]
fn blur_behind_settings() {
    assert!(read_blur_behind(None, None));
    assert!(!read_blur_behind(Some("[BlurBehindEffect]\nenabled=false\n"), None));
    assert!(read_blur_behind(Some("[BlurBehindEffect]\n enabled = TRUE \n"), None));
    assert!(read_blur_behind(Some("[BlurBehindEffect]\nenabled=TRUE\n"), Some("[BlurBehindEffect]\nenabled=false\n")));
    assert!(!read_blur_behind(Some("[Other]\nenabled=true\n"), Some("[BlurBehindEffect]\nenabled=0\n")));
}

#[test]
fn parses_theme_and_output_options() {
    let parsed = parse_args(&strings(&["-t", "breeze", "--output=/tmp/out"])).unwrap();
    assert_eq!(
        parsed,
        Args { theme: Some("breeze".to_owned()), output: Some("/tmp/out".to_owned()), fd: None }
    );
    let parsed = parse_args(&strings(&["--theme=a", "-o", "b", "--fd", "7"])).unwrap();
    assert_eq!(parsed.fd, Some(7));
    assert_eq!(parsed.theme.as_deref(), Some("a"));
    assert_eq!(parsed.output.as_deref(), Some("b"));
}

#[test]
fn option_without_value_reads_empty() {
    let parsed = parse_args(&strings(&["--theme"])).unwrap();
    assert_eq!(parsed.theme.as_deref(), Some(""));
    let parsed = parse_args(&strings(&["--fd=abc"])).unwrap();
    assert_eq!(parsed.fd, None);
    let parsed = parse_args(&strings(&["--fd=-3"])).unwrap();
    assert_eq!(parsed.fd, Some(-3));
}

#[test]
fn help_version_and_unknown_stop_parsing() {
    assert_eq!(parse_args(&strings(&["-t", "x", "-h"])), Err(CliExit::Help));
    assert_eq!(parse_args(&strings(&["--version"])), Err(CliExit::Version));
    assert_eq!(parse_args(&strings(&["--bogus", "-h"])), Err(CliExit::Unknown("--bogus".to_owned())));
}

#[test]
fn empty_theme_name_falls_back_to_default() {
    let roots = strings(&["/a", "/b"]);
    let found = locate_theme(&roots, "", |_p: &str| true);
    assert_eq!(found, Some(("default".to_owned(), "/a/plasma/desktoptheme/default".to_owned())));
}

#[test]
fn image_path_rejects_absolute_names() {
    let roots = strings(&["/r"]);
    assert_eq!(image_path(&roots, "t", "/tmp/x", |_p: &str| true), None);
}
