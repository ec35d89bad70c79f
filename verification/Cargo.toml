[package]
name = "jsonwatch"
version = "0.1.0"
edition = "2021"
publish = false

[dependencies]
serde_json = { version = "1", features = ["preserve_order"] }
indexmap = "2"
rand = "0.8"
crossterm = "0.27"
ratatui = "0.26"
notify = "6"
