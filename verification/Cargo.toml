[package]
name = "crucible_core"
version = "0.1.0"
edition = "2021"
publish = false

[dependencies]
uuid = { version = "=1.29.0", features = ["v7"] }
sha2 = "=0.10.9"
serde_json = "=1.0.154"
globset = "=0.4.21"
thiserror = "=2.0.21"
getrandom = "=0.4.3"
