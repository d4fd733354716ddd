[package]
name = "lproxy_cv"
version = "0.1.0"
edition = "2021"
publish = false

[dependencies]
byteorder = "1"
url = "2"
serde_json = "1"
flate2 = "1"
fnv = "1"
protobuf = "2.14"
base64 = "*"
rand = "*"
fs2 = "0.4"
mac_address = "1"
log = "0.4"
