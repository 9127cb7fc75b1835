[package]
name = "brick"
version = "0.1.0"
edition = "2021"
publish = false

[dependencies]
url = "2"
serde = { version = "1", features = ["derive"] }
serde_json = "1"
time = { version = "0.3", features = ["parsing"] }
image = { version = "0.25", default-features = false, features = ["png"] }
uuid = { version = "1", features = ["v4"] }
fs2 = "0.4"
http = "1"
eframe = { version = "*", default-features = false, features = ["glow", "x11"] }
raw-window-handle = "0.6"
