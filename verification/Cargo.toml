[package]
name = "zero2prod"
version = "0.1.0"
edition = "2021"
publish = false

[dependencies]
uuid = { version = "*", features = ["v4"] }
chrono = "*"
serde = { version = "*", features = ["derive"] }
actix-web = { version = "*", default-features = false, features = ["macros"] }
sqlx = { version = "*", default-features = false, features = ["runtime-tokio", "postgres", "uuid", "chrono"] }
config = { version = "*", default-features = false, features = ["yaml"] }
tracing = "*"
tracing-subscriber = { version = "*", features = ["env-filter"] }
tracing-bunyan-formatter = "*"
tracing-log = "*"
