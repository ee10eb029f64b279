[package]
name = "syfala"
version = "0.1.0"
edition = "2021"
publish = false

[dependencies]
rtrb = "0.3"
postcard = { version = "1", features = ["use-std"] }
serde = { version = "1", features = ["derive"] }
oneshot = "*"
jack = "*"
log = "*"
atomic_float = "*"
oslog = "*"
coreaudio-sys = "*"
