[package]
name = "autorace_results"
version = "0.1.0"
edition = "2021"
publish = false

[dependencies]
scraper = "=0.27.0"
reqwest = { version = "=0.13.5", default-features = false, features = ["blocking", "cookies", "form"] }
