//! Fcitx 5 Classic UI theme generation from Plasma themes: color schemes,
//! configuration trees and their INI serialization, pixel composition and the
//! watcher decisions, with their contracts proved by Verus.

pub mod text;
pub mod paths;
pub mod breeze;
pub mod plasma;
pub mod autotheme;
pub mod svgz;
