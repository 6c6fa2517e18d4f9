[package]
name = "bazaar_api"
version = "0.1.0"
edition = "2021"
publish = false

[dependencies]
actix-web = "4"
bson = "2"
futures-util = "0.3"
mongodb = "2"
serde = { version = "1", features = ["derive"] }
serde_json = "1"
