[package]
name = "chat_session"
version = "0.1.0"
edition = "2021"
publish = false

[dependencies]
shlex = "1"
serde_json = "1"
serde = { version = "1", features = ["derive"] }
clap = { version = "4", features = ["derive", "env"] }
tokio = { version = "1", features = ["macros", "rt-multi-thread", "net", "time", "signal", "sync"] }
tokio-tungstenite = "*"
tokio-util = { version = "0.7", features = ["rt"] }
futures-util = { version = "0.3", features = ["sink"] }
