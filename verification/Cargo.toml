[package]
name = "commitoria"
version = "0.1.0"
edition = "2021"
publish = false

[dependencies]
axum = "*"
axum-extra = { version = "*", features = ["query"] }
chrono = "0.4"
git2 = { version = "*", default-features = false }
reqwest = { version = "*", default-features = false }
scraper = "*"
serde = { version = "1", features = ["derive"] }
serde_json = "1"
tokio = { version = "1", features = ["macros", "net", "rt-multi-thread", "time"] }
tower_governor = "*"
url = { version = "2", features = ["serde"] }
uuid = { version = "1", features = ["v4"] }
