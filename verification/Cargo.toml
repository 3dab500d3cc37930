[package]
name = "weekend_at_joes"
version = "0.1.0"
edition = "2021"
publish = false

[dependencies]
chrono = "0.4"
diesel = { version = "2", features = ["postgres", "r2d2"] }
frank_jwt = "3"
log = "0.4"
rand = "0.4"
rocket = { version = "0.5", features = ["json"] }
rust-crypto = "0.2"
serde = { version = "1", features = ["derive"] }
serde_json = "1"
simplelog = "0.12"
