[package]
name = "hostkeys"
version = "0.1.0"
edition = "2021"
publish = false

[dependencies]
gethostname = "*"
getopts = "0.2"
log = "0.4"
mktemp = "0.5"
paho-mqtt = "*"
rand = "0.8"
serde = { version = "1", features = ["derive"] }
serde_json = "1"
serde_yaml = "0.9"
url = "2"
