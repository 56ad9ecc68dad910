[package]
name = "longinus"
version = "0.1.0"
edition = "2021"
publish = false

[dependencies]
chrono = "=0.4.45"
derive_more = { version = "=2.1.1", features = ["add", "mul"] }
gilrs = "=0.11.2"
itertools = "=0.15.0"
macroquad = { version = "=0.4.16", default-features = false }
rapier2d = "=0.30.1"
rpds = "=1.2.1"
serde = { version = "=1.0.229", features = ["derive"] }
serde_json = "=1.0.154"
serde_literals = "=0.1.3"
