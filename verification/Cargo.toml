[package]
name = "docker-native-manager"
version = "0.1.0"
edition = "2021"
publish = false

[dependencies]
bollard = "0.18"
chrono = "0.4"
futures-util = "0.3"
serde = { version = "1", features = ["derive"] }
serde_json = "1"
sysinfo = "0.33"
tokio = { version = "1", features = ["sync", "time", "macros", "io-util", "rt"] }
