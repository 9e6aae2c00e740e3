[package]
name = "oxc_tailwindcss"
version = "0.1.0"
edition = "2021"
publish = false

[dependencies]
rustc-hash = "=2.1.3"
smallvec = "=1.16.4"
serde_json = "=1.0.154"
compact_str = "=0.9.1"
lazy-regex = "3"
