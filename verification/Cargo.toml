[package]
name = "substrait_textplan"
version = "0.1.0"
edition = "2021"
publish = false

[dependencies]
substrait = { version = "=0.65.0", features = ["serde", "protox"] }
prost = "=0.14.4"
prost-types = "=0.14.4"
serde_json = "=1.0.154"
thiserror = "=2.0.21"
tinytemplate = "1.2"
