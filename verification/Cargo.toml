[package]
name = "moleculer"
version = "0.1.0"
edition = "2021"
publish = false

[dependencies]
byteorder = "1"
base64 = "0.22"
uuid = { version = "1", features = ["v4"] }
serde = { version = "1", features = ["derive"] }
serde_json = "1"
tokio = { version = "1", features = ["sync", "rt", "rt-multi-thread", "macros", "time"] }
warp = "0.3"
reqwest = { version = "0.12", default-features = false, features = ["json"] }
futures = "0.3"
log = "0.4"
async-trait = "0.1"
ureq = { version = "2", default-features = false }
async-nats = "*"
bytes = "1"
