[package]
name = "ccntool_core"
version = "0.1.0"
edition = "2021"
publish = false

[dependencies]
dotenvy = "*"
tokio = { version = "1", features = ["macros", "rt-multi-thread"] }
sqlx = { version = "0.8", default-features = false, features = ["mysql", "runtime-tokio"] }
