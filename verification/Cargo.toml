[package]
name = "bevy_physics_take2"
version = "0.1.0"
edition = "2021"
publish = false

[dependencies]
bevy = { version = "=0.6.1", default-features = false, features = ["render"] }
bevy-inspector-egui = "=0.8.2"
bevy_polyline = "=0.1.4"
bytemuck = "=1.25.2"
darling = "=0.13.4"
