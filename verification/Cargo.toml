[package]
name = "rs_movie_db"
version = "0.1.0"
edition = "2021"
publish = false

[dependencies]
rocket = "0.5"
serde = { version = "1", features = ["derive"] }
serde_json = "1"
aws-config = "*"
aws-sdk-s3 = "*"
