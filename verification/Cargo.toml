[package]
name = "tilemap_chunk"
version = "0.1.0"
edition = "2021"
publish = false

[dependencies]
bevy_app = { version = "=0.15.3", default-features = false }
bevy_asset = { version = "=0.15.3", default-features = false }
bevy_image = { version = "=0.15.3", default-features = false }
bevy_math = { version = "=0.15.3", default-features = false }
bevy_reflect = { version = "=0.15.3", default-features = false }
bevy_render = { version = "=0.15.3", default-features = false }
