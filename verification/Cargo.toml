[package]
name = "search_article_with_word"
version = "0.1.0"
edition = "2021"
publish = false

[dependencies]
anyhow = "*"
clap = { version = "*", features = ["derive"] }
encoding_rs = "*"
quick-xml = { version = "*", features = ["async-tokio", "encoding"] }
serde = { version = "*", features = ["derive"] }
serde_json = "*"
tokio = { version = "*", features = ["fs", "io-util", "rt-multi-thread", "macros"] }
tokio-stream = "*"
tracing = "*"
tracing-subscriber = "*"
