[package]
name = "p2p_chat"
version = "0.1.0"
edition = "2021"
publish = false

[dependencies]
rand = "0.8"
hmac = "0.12"
sha2 = "0.10"
hex = "0.4"
serde_json = "1"
tokio = { version = "1", features = ["full"] }
pusher = "0.4"
hyper = { version = "0.14", features = ["client", "http1", "tcp"] }
tungstenite = { version = "0.21", features = ["rustls-tls-webpki-roots"] }
tokio-tungstenite = { version = "0.21", features = ["rustls-tls-webpki-roots"] }
futures = "0.3"
futures-util = "0.3"
futures-channel = "0.3"
