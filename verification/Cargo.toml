[package]
name = "autograph"
version = "0.1.0"
edition = "2021"
publish = false

[dependencies]
anyhow = "1"
derive-syn-parse = "0.1"
half = "2"
krnl = { version = "0.1", default-features = false }
ndarray = "0.15"
proc-macro2 = "1"
quote = "1"
rand = "0.8"
serde = { version = "1", features = ["derive"] }
smallvec = "1"
syn = { version = "1", features = ["full"] }
