[package]
name = "open_lights_manager"
version = "0.1.0"
edition = "2021"
publish = false

[dependencies]
chrono = { version = "*", features = ["serde"] }
fastrand = "*"
serde = { version = "*", features = ["derive"] }
serde_json = "*"
reqwest = { version = "*", default-features = false, features = ["rustls-tls", "stream"] }
tokio = { version = "*", features = ["rt-multi-thread"] }
futures-util = "*"
zip = { version = "*", default-features = false, features = ["deflate"] }

[dev-dependencies]
semver = "*"
