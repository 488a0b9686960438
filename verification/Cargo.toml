[package]
name = "rust_shadow_dungeon"
version = "0.1.0"
edition = "2021"
publish = false

[dependencies]
rand = "0.8"
bevy = { version = "0.17", default-features = false, features = ["std", "bevy_log", "bevy_asset", "bevy_sprite", "bevy_text", "bevy_ui"] }
avian2d = { version = "0.4", default-features = false, features = ["2d", "f32", "parry-f32", "default-collider"] }
