[package]
name = "brawler_core"
version = "0.1.0"
edition = "2021"
publish = false

[dependencies]
serde = { version = "1", features = ["derive"] }
serde_json = "1"
url = "2"
scraper = "*"
sha2 = "0.10"
instant-distance = "*"
time = { version = "0.3", features = ["formatting", "macros"] }
thiserror = "*"
