[package]
name = "ui_drag"
version = "0.1.0"
edition = "2021"
publish = false

[dependencies]
amethyst_core = "*"
amethyst_derive = "*"
amethyst_input = "*"
amethyst_window = "*"
serde = { version = "1", features = ["derive"] }
