[package]
name = "inventory_scanner"
version = "0.4.0"
edition = "2021"
publish = false

[dependencies]
dont_disappear = "*"
futures = "0.3"
reqwest = { version = "0.11", default-features = false, features = ["json", "rustls-tls"] }
serde = { version = "1", features = ["derive"] }
serde_json = "1"
text_io = "*"
tokio = { version = "1", features = ["macros", "rt-multi-thread"] }
