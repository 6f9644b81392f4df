[package]
name = "rawhide_scrape"
version = "0.1.0"
edition = "2021"
publish = false

[dependencies]
log = "0.4"
reqwest = "0.12"
scraper = { version = "=0.29.0", default-features = false }
simplelog = "0.12"
thiserror = "1"
tokio = { version = "1", features = ["macros", "rt-multi-thread"] }
url = "=2.5.8"
