[package]
name = "rocm_attr"
version = "0.1.0"
edition = "2021"
publish = false

[dependencies]
regex = "1"
serde_json = "1"
fslock = "0.2"
syn = { version = "2", features = ["full"] }
quote = "1"
proc-macro2 = "1"
