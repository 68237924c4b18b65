[package]
name = "creature_oracle"
version = "0.1.0"
edition = "2021"
publish = false

[dependencies]
blake3 = "1"
chrono = { version = "0.4", default-features = false, features = ["std", "clock"] }
geo-types = "0.7"
h3ron = "0.14"
rand = "0.8"
