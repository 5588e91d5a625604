[package]
name = "sexy"
version = "0.1.0"
edition = "2021"
publish = false

[dependencies]
select = "0.6"
regex = "1"
colored = "1"
clap = "2"
reqwest = "0.9"
cloudflare-bypasser = "*"
postgres = "0.19"
serde = { version = "1", features = ["derive"] }
serde_json = "1"
