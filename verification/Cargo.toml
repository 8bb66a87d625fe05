[package]
name = "fluentui_icons"
version = "1.0.0"
edition = "2021"
publish = false

[dependencies]
proc-macro2 = "1"
quote = "1"
serde_json = "1"
syn = { version = "2", features = ["full", "visit-mut"] }
