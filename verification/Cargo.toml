[package]
name = "eginet"
version = "0.1.0"
edition = "2021"
publish = false

[dependencies]
zeroize = "*"
serde = { version = "*", features = ["derive"] }
serde_json = "*"
jni = "*"
libc = "*"
lazy_static = "*"
tokio = { version = "*", features = ["rt-multi-thread", "net", "time", "io-util"] }
tun = { version = "*", features = ["async"] }
tun2proxy = "*"
shadowsocks = "*"
shadowsocks-service = { version = "*", features = ["local"] }
