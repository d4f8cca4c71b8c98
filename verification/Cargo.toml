[package]
name = "marbles"
version = "0.1.0"
edition = "2021"
publish = false

[dependencies]
anyhow = "1"
clap = { version = "3.2", features = ["derive"] }
tokio = { version = "1", features = ["rt-multi-thread", "macros"] }
twitch-irc = { version = "4", default-features = false, features = ["transport-tcp", "transport-tcp-rustls-webpki-roots"] }
