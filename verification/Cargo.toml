[package]
name = "todo_backend"
version = "0.1.0"
edition = "2021"
publish = false

[dependencies]
sea-orm = { version = "*", default-features = false, features = ["sqlx-sqlite", "runtime-tokio-rustls", "macros"] }
serde = { version = "*", features = ["derive"] }
tokio = { version = "*", features = ["rt-multi-thread", "macros"] }
ureq = { version = "2", features = ["json"] }
