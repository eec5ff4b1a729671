[package]
name = "athanor"
version = "0.1.0"
edition = "2021"
publish = false

[dependencies]
chrono = { version = "=0.4.45", default-features = false, features = ["std", "alloc"] }
sha2 = "=0.10.9"
hex = "=0.4.3"
base64 = "=0.22.1"
p256 = { version = "=0.13.2", features = ["ecdsa", "pem"] }
serde = { version = "=1.0.229", features = ["derive"] }
serde_json = "=1.0.154"
zvariant = "=5.15.1"
zbus_names = "4"
greetd_ipc = "=0.10.3"
zeroize = "=1.9.1"
libc = "=0.2.191"
anyhow = "=1.0.104"
zbus = { version = "5", default-features = false, features = ["tokio"] }
tokio = { version = "1", features = ["rt", "macros", "process", "time"] }
futures-util = "0.3"
tracing = "0.1"
tracing-subscriber = { version = "0.3", features = ["env-filter"] }
nix = { version = "0.29", features = ["fs", "user"] }
xattr = "1"
landlock = "0.4"
