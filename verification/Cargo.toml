[package]
name = "clean_data"
version = "0.1.0"
edition = "2021"
publish = false

[dependencies]
clap = "=4.6.7"
office = "=0.8.1"
rust_xlsxwriter = "=0.101.0"
serde_json = "=1.0.154"
zip = { version = "=0.2.9", default-features = false, features = ["deflate"] }
