[package]
name = "ss58-registry"
version = "1.0.0"
edition = "2021"
publish = false

[dependencies]
Inflector = { version = "0.11", default-features = false }
num-format = { version = "0.4", features = ["std"] }
unicode-xid = "0.2"
proc-macro2 = "1.0"
quote = "1.0"
serde = { version = "1.0", features = ["derive"] }
serde_json = "1.0"
