[package]
name = "baston"
version = "0.1.0"
edition = "2021"
publish = false

[dependencies]
aes = "0.8"
bcrypt = "*"
dashmap = "6"
deno_core = "*"
metrics = "0.24"
mlua = { version = "0.10", features = ["lua54", "vendored", "serialize"] }
prost = "0.13"
rcgen = "0.13"
rustls = { version = "0.23", default-features = false, features = ["std", "ring"] }
serde = { version = "1", features = ["derive"] }
serde_json = "1"
thiserror = "2"
tokio = { version = "1", features = ["full"] }
tokio-rustls = { version = "0.26", default-features = false }
tracing = "0.1"
