[package]
name = "sidegrade"
version = "0.1.0"
edition = "2021"
publish = false

[dependencies]
actix-web = "4"
anyhow = "1"
async-mutex = "1"
chrono = { version = "0.4", features = ["serde"] }
convert_case = "0.6"
dotenv = "0.15"
embedded-hal = "0.2"
embedded-svc = "0.26"
esp-idf-hal = "0.42"
esp-idf-svc = "0.47"
futures = "0.3"
hd44780-driver = "0.4"
log = "0.4"
reqwest = "0.11"
serde = { version = "1", features = ["derive"] }
serde_json = "1"
url = "2"
