[package]
name = "second_screen"
version = "0.1.0"
edition = "2021"
publish = false

[dependencies]
image = { version = "0.25", default-features = false, features = ["jpeg", "png"] }
bincode = "1"
serde = { version = "1", features = ["derive"] }
tokio = { version = "1", features = ["rt-multi-thread", "net", "io-util", "time", "sync"] }
chrono = "0.4"
hostname = "0.4"
local-ip-address = "*"
mdns-sd = "*"
minifb = "*"
eframe = { version = "*", default-features = false, features = ["default_fonts", "glow", "x11"] }
