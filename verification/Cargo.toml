[package]
name = "transmit_log"
version = "0.1.0"
edition = "2021"
publish = false

[dependencies]
chrono = { version = "0.4", features = ["serde"] }
regex = "1"
serde = { version = "1", features = ["derive"] }
serde_json = "1"
kafka = { version = "*", default-features = false }
rdkafka = { version = "*", default-features = false }
ssh2 = "*"
