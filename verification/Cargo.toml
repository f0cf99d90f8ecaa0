[package]
name = "service_berry"
version = "0.1.0"
edition = "2021"
publish = false

[dependencies]
sha2 = "*"
tokio = { version = "*", features = ["full"] }
btleplug = "*"
ble-peripheral-rust = "*"
uuid = "*"
mdns-sd = "*"
hostname = "*"
local-ip-address = "*"
users = "*"
directories = "*"
rcgen = "*"
rustls-pemfile = "*"
