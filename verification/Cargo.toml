[package]
name = "listing_watch"
version = "0.1.0"
edition = "2021"
publish = false

[dependencies]
tl = "0.7"
reqwest = { version = "0.11", features = ["blocking"] }
rusqlite = "0.31"
