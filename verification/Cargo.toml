[package]
name = "wow_ui_glue"
version = "0.1.0"
edition = "2021"
publish = false

[dependencies]
mlua = { version = "*", features = ["lua51", "vendored"] }
rilua = "*"
