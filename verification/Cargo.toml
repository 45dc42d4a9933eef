[package]
name = "nordnotes"
version = "0.1.0"
edition = "2021"
publish = false

[dependencies]
time = { version = "0.3", features = ["formatting", "parsing"] }
uuid = { version = "1", features = ["v4"] }
actix-web = "4"
actix-cors = "0.7"
tokio = { version = "1", features = ["sync", "rt-multi-thread", "macros"] }
serde = "1"
serde_derive = "1"
serde_json = "1"
