[package]
name = "chat_server"
version = "0.1.0"
edition = "2021"
publish = false

[dependencies]
actix = "0.10"
actix-rt = "1"
actix-web = "3"
actix-web-actors = "3"
actix-http = "2"
chrono = "0.4"
fern = "0.6"
log = "0.4"
rand = "0.7"
serde = { version = "1", features = ["derive"] }
serde_json = "1"
