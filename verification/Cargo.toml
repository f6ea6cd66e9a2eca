[package]
name = "authz_flow"
version = "0.1.0"
edition = "2021"
publish = false

[dependencies]
rand = "=0.8.8"
ulid = "=1.2.1"
chrono = "=0.4.45"
argon2 = "=0.5.3"
password-hash = "=0.5.0"
url = "=2.5.8"
serde = { version = "=1.0.229", features = ["derive"] }
serde_json = "=1.0.151"

[dev-dependencies]
rand_chacha = "=0.9.0"
