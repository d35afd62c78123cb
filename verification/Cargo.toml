[package]
name = "hachimi"
version = "0.1.0"
edition = "2021"
publish = false

[dependencies]
regex = "1"
rmpv = "1"
serde = { version = "1", features = ["derive"] }
serde_json = "1"
chrono = { version = "0.4", default-features = false, features = ["clock"] }
ureq = { version = "2", default-features = false }
once_cell = "1"

[dev-dependencies]
rmpv = "1"
