[package]
name = "com_scrape"
version = "0.1.0"
edition = "2021"
publish = false

[dependencies]
clang-sys = { version = "1", features = ["clang_6_0", "runtime"] }
