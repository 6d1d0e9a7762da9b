[package]
name = "vlog"
version = "0.1.0"
edition = "2021"
publish = false

[dependencies]
pulldown-cmark = { version = "=0.13.6", default-features = false, features = ["html"] }
serde = { version = "=1.0.229", features = ["derive"] }
sqlx = { version = "=0.8.6", default-features = false, features = ["sqlite", "runtime-tokio", "macros"] }
tokio = { version = "=1.54.1", features = ["fs", "io-util", "rt", "macros"] }
volo = "=0.12.4"
volo-http = { version = "=0.5.7", features = ["server"] }
askama = "=0.16.1"
multer = "=3.1.0"
once_cell = "=1.21.4"
thiserror = "=2.0.21"
toml = "=1.1.8"
tracing = "=0.1.44"
tracing-subscriber = { version = "=0.3.23", features = ["env-filter"] }
argon2 = "0.5"
chrono = "=0.4.45"
rand = "=0.9.5"
