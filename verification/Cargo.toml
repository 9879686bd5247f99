[package]
name = "trade_game"
version = "0.1.0"
edition = "2021"
publish = false

[dependencies]
rust_decimal = "1"
rand = "0.8"
chrono = "0.4"
tokio = { version = "1", features = ["full"] }
redis = { version = "*", features = ["tokio-comp"] }
serde = { version = "1", features = ["derive"] }
serde_json = "1"
sea-orm = { version = "*", default-features = false, features = ["macros", "with-rust_decimal", "with-chrono"] }
actix-web = "4"
