[package]
name = "fui"
version = "0.1.0"
edition = "2021"
publish = false

[dependencies]
glob = "=0.3.4"
dirs = "=7.0.0"
serde_json = "=1.0.154"
clap = { version = "=4.6.7", features = ["string"] }
cursive = "=0.21.1"
