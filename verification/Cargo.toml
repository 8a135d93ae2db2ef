[package]
name = "session_cache"
version = "0.1.0"
edition = "2021"
publish = false

[dependencies]
redis = "0.23"
serde_json = "1"
urlparse = "0.7"
