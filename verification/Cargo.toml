[package]
name = "screen_lib"
version = "0.1.0"
edition = "2021"
publish = false

[dependencies]
serde = { version = "1", features = ["derive"] }
serde_json = "1"
tokio = { version = "1", features = ["full"] }
futures = "0.3"
futures-util = "0.3"
futures-lite = "2"
tokio-tungstenite = "*"
anyhow = "1"
async-trait = "0.1"
lazy_static = "1"
once_cell = "1"
log = "0.4"
reqwest = { version = "0.12", default-features = false, features = ["stream"] }
zip = { version = "*", default-features = false, features = ["deflate"] }
get_if_addrs = "0.5"
enigo = "*"
resolution = "*"
mouse_position = "*"
async-hid = "*"
