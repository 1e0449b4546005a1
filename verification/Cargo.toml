[package]
name = "game_logic"
version = "0.1.0"
edition = "2021"
publish = false

[dependencies]
rapier2d = "0.18"
nalgebra = "0.32"
serde = { version = "1", features = ["derive"] }
serde_json = "1"
tokio = { version = "1", features = ["rt-multi-thread", "macros", "net", "time", "sync"] }
tokio-tungstenite = "0.21"
futures-util = "0.3"
