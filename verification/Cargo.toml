[package]
name = "validator"
version = "0.1.0"
edition = "2021"
publish = false

[dependencies]
actix-rt = "*"
actix-web = "*"
anyhow = "*"
chrono = "*"
chrono-tz = "*"
clap = { version = "*", features = ["derive"] }
env_logger = "*"
futures = "*"
geo = "*"
geojson = "*"
gtfs-structures = "*"
iso4217 = "*"
isolang = "*"
log = "*"
serde = { version = "*", features = ["derive"] }
serde_json = "*"
serde_yaml = "*"
url = "*"
