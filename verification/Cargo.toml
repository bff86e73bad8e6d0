[package]
name = "nested_tooltips"
version = "0.1.0"
edition = "2021"
publish = false

[dependencies]
bevy_app = "0.17"
bevy_derive = "0.17"
bevy_ecs = "0.17"
bevy_log = "0.17"
bevy_math = "0.17"
bevy_picking = "0.17"
bevy_platform = "0.17"
bevy_text = "0.17"
bevy_time = "0.17"
bevy_ui = "0.17"
bevy_window = "0.17"
tiny_bail = "*"
