[package]
name = "predator_prey_sim"
version = "0.1.0"
edition = "2021"
publish = false

[dependencies]
rand = "0.8"
serde = { version = "1", features = ["derive"] }
toml = "0.8"
egui = { version = "0.27", default-features = false }
