[package]
name = "space_structures"
version = "0.1.0"
edition = "2021"
publish = false

[dependencies]
bevy = { version = "0.14.2", default-features = false, features = ["bevy_asset", "bevy_color", "bevy_state"] }
avian2d = { version = "0.1.2", default-features = false, features = ["2d", "f32", "parry-f32", "default-collider"] }
serde = { version = "1", features = ["derive"] }
serde_json = "1"
thiserror = "1"
log = "0.4"
