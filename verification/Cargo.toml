[package]
name = "conway"
version = "0.1.0"
edition = "2021"
publish = false

[dependencies]
egui = { version = "0.27", default-features = false }
instant = "0.1"
rand = "0.8"
serde = { version = "1", features = ["derive"] }
