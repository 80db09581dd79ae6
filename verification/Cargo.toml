[package]
name = "fcitx_autotheme"
version = "0.1.0"
edition = "2021"
publish = false

[dependencies]
flate2 = "1"
image = { version = "0.25", default-features = false, features = ["png"] }
png = "*"
roxmltree = "*"
xmlwriter = "*"
usvg = "*"
resvg = "*"
tiny-skia = "*"
fontdb = "*"
dirs = "*"
libc = "*"
thiserror = "*"
anyhow = "1"
clap = { version = "4", features = ["derive"] }
tokio = { version = "1", features = ["macros", "rt-multi-thread", "signal", "time", "process"] }
zbus = { version = "5", default-features = false, features = ["tokio"] }
futures-util = "0.3"
tracing = "0.1"
tracing-subscriber = { version = "0.3", features = ["env-filter", "fmt"] }
