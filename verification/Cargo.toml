[package]
name = "bevy_replicon_quinnet"
version = "0.1.0"
edition = "2021"
publish = false

[dependencies]
bevy = { version = "=0.17.3", default-features = false, features = ["bevy_log", "bevy_state"] }
bevy_quinnet = { version = "=0.19.0", default-features = false, features = ["client", "server", "shared-client-id"] }
bevy_replicon = "=0.36.1"
bytes = "=1.12.1"
tokio-util = "=0.7.16"
