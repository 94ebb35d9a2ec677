[package]
name = "george_ai"
version = "0.1.0"
edition = "2021"
publish = false

[dependencies]
base64 = "*"
image = { version = "*", default-features = false, features = ["png"] }
uuid = { version = "*", features = ["v4"] }
serde = { version = "*", features = ["derive"] }
serde_json = "*"
reqwest = { version = "*", default-features = false, features = ["json"] }
tokio = { version = "*", features = ["rt-multi-thread", "macros", "time"] }
bollard = "*"
futures-util = "*"
tar = "*"
