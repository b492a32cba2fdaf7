[package]
name = "aquatic"
version = "0.1.0"
edition = "2021"
publish = false

[dependencies]
anyhow = "1"
async-tungstenite = "0.17"
bendy = "0.3"
crossbeam-channel = "0.5"
futures = "0.3"
futures-lite = "1"
futures-rustls = "0.22"
glommio = "0.7"
gumdrop = "0.8"
hashbrown = "0.12"
httparse = "1"
indexmap = "1.9"
log = "0.4"
mio = { version = "0.8", features = ["net", "os-poll"] }
native-tls = "0.2"
rand = { version = "0.8", features = ["small_rng"] }
rustls = "0.20"
rustls-pemfile = "1"
serde = { version = "1", features = ["derive"] }
serde_json = "1"
serde_urlencoded = "0.7"
simd-json = "*"
slab = "0.4"
socket2 = { version = "0.4", features = ["all"] }
toml = "0.5"
tungstenite = "0.17"

[dev-dependencies]
quickcheck = "1"
