//! The theme generator built on whole-frame composition: KDE color schemes
//! in both file formats, the fcitx `theme.conf` tree, theme resolution,
//! RGBA image composition and the generator's configuration logic.

pub mod error;
pub mod colors;
pub mod theme_conf;
pub mod theme_resolver;
pub mod frame;
pub mod generator;
pub mod svg;
pub mod xml;
