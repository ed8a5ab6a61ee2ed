[package]
name = "halia"
version = "0.1.0"
edition = "2021"
publish = false

[dependencies]
bevy = { version = "0.10", default-features = false, features = ["bevy_asset", "bevy_core_pipeline", "bevy_render", "bevy_sprite"] }
bevy_input = "0.10"
anyhow = "1"
cargo_toml = "*"
xshell = "*"
