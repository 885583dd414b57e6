[package]
name = "cel_pipeline"
version = "0.1.0"
edition = "2021"
publish = false

[dependencies]
anyhow = "=1.0.104"
async-trait = "=0.1.50"
bevy = { version = "=0.5.0", default-features = false, features = ["render", "bevy_wgpu", "bevy_winit", "x11"] }
bevy_egui = { version = "=0.4.2", default-features = false }
bevy_obj = "=0.5.1"
log = "=0.4.34"
log4rs = { version = "=1.2.0", default-features = false, features = ["console_appender", "pattern_encoder"] }
