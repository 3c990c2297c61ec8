[package]
name = "corelia"
version = "0.1.0"
edition = "2021"
publish = false

[dependencies]
serde = { version = "1", features = ["derive"] }
serde_json = "1"
rand = "0.8"
base64 = "0.22"
sha2 = "0.10"
hostname = "0.4"
arboard = "3"
open = "5"
ureq = "2"
rquickjs = "0.6"
