[package]
name = "scripture"
version = "0.1.0"
edition = "2021"
publish = false

[dependencies]
actix-files = "0.6"
actix-web = { version = "4", default-features = false, features = ["compress-gzip"] }
dotenv = "0.15"
env_logger = "0.11"
handlebars = { version = "4", features = ["dir_source"] }
sentry = { version = "0.32", default-features = false, features = ["backtrace", "contexts", "panic"] }
sentry-actix = "0.32"
