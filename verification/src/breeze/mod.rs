//! The Plasma-to-Fcitx theme generator that mirrors KSvg/fcitx semantics:
//! 16-bit fcitx colors, the fcitx `RawConfig` tree and INI writer, the
//! KColorScheme cascade, pixmap composition and the command line.

pub mod color;
pub mod ini;
pub mod render;
pub mod colorscheme;
pub mod generator;
pub mod theme;
pub mod cli;
pub mod svg;
pub mod monitor;
