[package]
name = "topic"
version = "0.1.0"
edition = "2021"
publish = false

[dependencies]
sha2 = "=0.11.1"
hoedown = "=6.0.0"
iron = "=0.6.1"
router = "=0.6.0"
persistent = "=0.4.0"
params = "=0.8.0"
mustache = "=0.9.0"
postgres = { version = "=0.19.14", features = ["with-chrono-0_4"] }
postgres_array = "=0.11.1"
r2d2 = "=0.8.10"
r2d2_postgres = "=0.18.2"
chrono = "=0.4.45"
toml = "=1.2.1"
rustc-serialize = "=0.3.25"
regex = "=1.13.1"
