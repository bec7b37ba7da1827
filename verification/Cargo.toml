[package]
name = "dynmap_wmts"
version = "0.1.0"
edition = "2021"
publish = false

[dependencies]
bytes = "1"
dotenv = "0.15"
futures-core = "0.3"
handlebars = "4"
ordered-float = { version = "3", features = ["serde"] }
reqwest = { version = "0.11", features = ["json", "stream"] }
rocket = "0.5"
serde = { version = "1", features = ["derive"] }
tokio-util = { version = "0.7", features = ["io"] }
