[package]
name = "zzsleep"
version = "0.1.0"
edition = "2021"
publish = false

[dependencies]
chrono = "0.4"
indicatif = "0.17"
tokio = { version = "1", features = ["macros", "rt", "time"] }
