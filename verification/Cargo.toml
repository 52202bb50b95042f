[package]
name = "physics_core"
version = "0.1.0"
edition = "2021"
publish = false

[dependencies]
bevy = { version = "=0.17.3", default-features = false, features = ["std", "async_executor", "multi_threaded", "bevy_log", "bevy_asset", "bevy_color", "bevy_core_pipeline", "bevy_pbr", "bevy_render", "bevy_gizmos", "bevy_text", "bevy_ui", "bevy_ui_render", "bevy_window", "default_font"] }
smallvec = "=1.16.4"
