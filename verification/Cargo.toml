[package]
name = "mqtt_session"
version = "0.1.0"
edition = "2021"
publish = false

[dependencies]
anyhow = "1"
dotenv = "0.15"
paho-mqtt = "0.12"
