[package]
name = "session_behaviour"
version = "0.1.0"
edition = "2021"
publish = false

[dependencies]
futures = "0.3"
tokio = { version = "1", default-features = false, features = ["rt", "sync", "time", "test-util"] }
