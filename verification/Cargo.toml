[package]
name = "ava_apartment_finder"
version = "0.1.0"
edition = "2021"
publish = false

[dependencies]
similar = { version = "*", features = ["text", "inline"] }
textwrap = "*"
serde = { version = "*", features = ["derive"] }
serde_json = { version = "*", features = ["preserve_order"] }
chrono = "*"
clap = { version = "*", features = ["derive"] }
reqwest = { version = "*", default-features = false, features = ["blocking", "rustls-tls"] }
tracing = "*"
tracing-subscriber = { version = "*", features = ["env-filter", "json", "fmt", "registry"] }
