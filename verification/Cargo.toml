[package]
name = "arena_scene"
version = "0.1.0"
edition = "2021"
publish = false

[dependencies]
bevy = { version = "=0.15.3", default-features = false, features = ["bevy_color", "bevy_pbr", "bevy_winit", "bevy_window", "x11"] }
