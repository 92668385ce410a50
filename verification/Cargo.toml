[package]
name = "pg_migrate"
version = "0.1.0"
edition = "2021"
publish = false

[dependencies]
sqlx = { version = "*", default-features = false, features = ["postgres", "runtime-tokio"] }
include_dir = "*"
thiserror = "*"
