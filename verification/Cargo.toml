[package]
name = "tile_agents"
version = "0.1.0"
edition = "2021"
publish = false

[dependencies]
bevy = { version = "0.11", default-features = false }
bevy_window = "0.11"
rand = "0.8"
