[package]
name = "usd_scene"
version = "0.1.0"
edition = "2021"
publish = false

[dependencies]
glam = "=0.29.3"
openusd-rs = "=0.1.0"
bevy = { version = "0.16", default-features = false, features = ["bevy_asset", "bevy_render", "bevy_pbr", "bevy_core_pipeline", "bevy_window", "std"] }
bevy_panorbit_camera = { version = "0.26", default-features = false }
console_error_panic_hook = "0.1"
wasm-bindgen = "0.2"
