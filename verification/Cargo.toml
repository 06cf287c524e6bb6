[package]
name = "rust_journey"
version = "0.1.0"
edition = "2021"
publish = false

[dependencies]
base64 = "*"
colored = "*"
dotenvy = "*"
rand = "*"
reqwest = { version = "*", features = ["json"] }
serde = { version = "*", features = ["derive"] }
serde_json = "*"
thiserror = "*"
tokio = { version = "*", features = ["macros", "rt-multi-thread", "fs"] }
