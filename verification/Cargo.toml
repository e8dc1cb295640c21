[package]
name = "opensearch_nix"
version = "0.1.0"
edition = "2021"
publish = false

[dependencies]
clap = { version = "*", features = ["derive"] }
mime = "*"
reqwest = { version = "*", default-features = false }
scraper = "*"
serde = { version = "*", features = ["derive"] }
serde_with = "*"
serde-xml-rs = "*"
tokio = { version = "*", features = ["rt", "macros"] }
url = "*"
