[package]
name = "combat_core"
version = "0.1.0"
edition = "2021"
publish = false

[dependencies]
avian2d = { version = "0.1", default-features = false, features = ["2d", "f32", "parry-f32"] }
bevy = { version = "=0.14.2", default-features = false }
