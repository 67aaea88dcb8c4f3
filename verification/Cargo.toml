[package]
name = "cliscord"
version = "0.1.0"
edition = "2021"
publish = false

[dependencies]
infer = "=0.22.0"
clap = { version = "=4.6.7", features = ["derive"] }
dirs = "=7.0.0"
reqwest = { version = "=0.13.5", default-features = false, features = ["json", "multipart", "form"] }
serde = { version = "=1.0.229", features = ["derive"] }
tokio = { version = "=1.53.2", features = ["macros", "rt-multi-thread"] }
