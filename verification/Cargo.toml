[package]
name = "cie"
version = "0.1.0"
edition = "2021"
publish = false

[dependencies]
chrono = "=0.4.45"
csv = "=1.4.0"
rust_decimal = "=1.43.0"
zip = { version = "=9.2.2", default-features = false, features = ["deflate"] }
serde = { version = "=1.0.229", features = ["derive"] }
serde_json = "=1.0.154"
thiserror = "=2.0.21"
anyhow = "=1.0.104"
reqwest = { version = "=0.12.28", default-features = false }
tokio = { version = "=1.54.1", features = ["macros", "rt-multi-thread", "time"] }
sqlx = { version = "=0.9.0", default-features = false, features = ["postgres", "runtime-tokio", "chrono", "rust_decimal", "bigdecimal", "migrate"] }
bigdecimal = "=0.4.11"
fxoanda = "=0.2.0"
futures = "=0.3.34"
dotenvy = "=0.15.7"
dotenv = "=0.15.0"
once_cell = "=1.21.4"
