[package]
name = "concord_tui"
version = "0.1.0"
edition = "2021"
publish = false

[dependencies]
unicode-segmentation = "=1.13.3"
image = { version = "=0.25.10", default-features = false, features = ["png", "jpeg", "gif", "webp"] }
crossterm = { version = "=0.29.0", features = ["osc52"] }
ratatui = "=0.30.2"
ratatui-image = { version = "=11.1.0", default-features = false, features = ["crossterm"] }
arboard = "=3.7.0"
tokio = { version = "=1.54.1", features = ["sync", "rt", "macros"] }
