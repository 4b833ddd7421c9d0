[package]
name = "window_lifecycle"
version = "0.1.0"
edition = "2021"
publish = false

[dependencies]
bevy_app = "0.12"
bevy_ecs = "0.12"
bevy_input = "0.12"
bevy_utils = "0.12"
