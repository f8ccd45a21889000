[package]
name = "blackjack"
version = "0.1.0"
edition = "2021"
publish = false

[dependencies]
bs58 = "*"
serde_json = "*"
serde = { version = "*", features = ["derive"] }
hyper = { version = "0.14", features = ["client", "http1", "tcp"] }
tokio = { version = "1", features = ["macros", "rt-multi-thread", "sync", "time"] }
dotenv = "*"
log = "*"

[dev-dependencies]
hex = "*"
