[package]
name = "roc"
version = "0.1.0"
edition = "2021"
publish = false

[dependencies]
dotenvy = "0.15"
mongodb = "2"
rocket = { version = "0.5", features = ["json"] }
