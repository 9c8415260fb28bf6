[package]
name = "cfgy"
version = "0.1.0"
edition = "2021"
publish = false

[dependencies]
serde_json = { version = "1", features = ["preserve_order"] }
toml = { version = "*", features = ["preserve_order"] }
saphyr = "*"
indexmap = "2"
syn = { version = "2", features = ["full", "extra-traits"] }
quote = "1"
proc-macro2 = "1"
