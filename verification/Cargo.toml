[package]
name = "brawl_hub"
version = "0.1.0"
edition = "2021"
publish = false

[dependencies]
futures = "0.3"
postgres = { version = "0.19", features = ["with-uuid-1"] }
serde = { version = "1", features = ["derive"] }
serde_json = "1"
thirtyfour = "*"
tokio = { version = "1", features = ["full"] }
uuid = { version = "1", features = ["v4"] }
