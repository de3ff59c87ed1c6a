[package]
name = "exif_reader"
version = "0.1.0"
edition = "2021"
publish = false

[dependencies]
kamadak-exif = "=0.6.1"
walkdir = "=2.5.0"
log = "=0.4.34"
env_logger = "=0.11.11"
dotenv = "=0.15.0"
serde = { version = "=1.0.229", features = ["derive"] }
serde_json = "=1.0.151"
rdkafka = { version = "=0.39.0", default-features = false, features = ["tokio"] }
tokio = { version = "=1.53.2", features = ["macros", "rt-multi-thread"] }

[dev-dependencies]
chrono = "=0.4.45"
regex = "=1.13.1"
