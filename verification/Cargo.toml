[package]
name = "mobile_cam"
version = "0.1.0"
edition = "2021"
publish = false

[dependencies]
mime_guess = "2"
actix-web = { version = "4", features = ["rustls-0_23"] }
actix-ws = "*"
bytestring = "1"
tokio = { version = "1", features = ["time", "macros", "rt"] }
tracing = "0.1"
tracing-subscriber = { version = "0.3", features = ["env-filter", "fmt"] }
rustls = "0.23"
rcgen = "*"
if-addrs = "*"
parking_lot = "0.12"
serde = { version = "1", features = ["derive"] }

[dev-dependencies]
derive_more = { version = "2", features = ["from_str", "display"] }
