[package]
name = "restaapp_printer"
version = "3.1.2"
edition = "2021"
publish = false

[dependencies]
base64 = "0.22"
chrono = "0.4"
directories = "5"
hex = "0.4"
reqwest = { version = "0.12", default-features = false, features = ["json", "rustls-tls"] }
serde = { version = "1", features = ["derive"] }
serde_json = "1"
sha2 = "0.10"
tokio = { version = "1", features = ["full"] }
tracing = "0.1"
tracing-appender = "0.2"
tracing-subscriber = "0.3"
uuid = { version = "1", features = ["v4"] }
wait-timeout = "0.2"
windows = { version = "0.59", features = ["Win32_Foundation", "Win32_Security_Cryptography"] }
zip = { version = "2", default-features = false, features = ["deflate"] }
