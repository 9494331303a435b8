[package]
name = "bevy_mod_async"
version = "0.1.0"
edition = "2021"
publish = false

[dependencies]
bevy_app = "0.17"
bevy_asset = "0.17"
bevy_ecs = "0.17"
bevy_tasks = "0.17"
bevy_time = "0.17"
futures = "0.3"
tokio = { version = "1", features = ["sync"] }
tokio-stream = { version = "0.1", features = ["sync"] }
