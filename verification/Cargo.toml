[package]
name = "arsd"
version = "0.1.0"
edition = "2021"
publish = false

[dependencies]
whoami = "*"
chrono = "*"
rusqlite = { version = "*", features = ["bundled"] }
serde = { version = "*", features = ["derive"] }
serde_json = "*"
config = "*"
aws-config = "*"
aws-sdk-sso = "*"
aws-sdk-ssooidc = "*"
tokio = { version = "*", features = ["rt-multi-thread", "macros"] }
