[package]
name = "dartman"
version = "0.1.0"
edition = "2021"
publish = false

[dependencies]
bevy = { version = "=0.18.1", default-features = false, features = ["std", "bevy_window", "bevy_scene", "bevy_pbr", "bevy_ui", "bevy_text"] }
rand = "=0.8.8"
