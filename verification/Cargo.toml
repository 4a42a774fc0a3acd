[package]
name = "signatrust"
version = "0.1.0"
edition = "2021"
publish = false

[dependencies]
chrono = "*"
sqlx = { version = "*", features = ["mysql", "chrono", "runtime-tokio"] }
async-trait = "*"
once_cell = "*"
config = { version = "*", default-features = false }
