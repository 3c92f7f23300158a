[package]
name = "ph"
version = "0.1.0"
edition = "2021"
publish = false

[dependencies]
anycase = "=0.1.0"
anyhow = "=1.0.104"
constcat = "=0.6.1"
home = "=0.5.12"
jiff = "=0.2.39"
log = "=0.4.35"
powerpack = { version = "=0.8.0", features = ["cache", "detach", "logger"] }
serde = { version = "=1.0.229", features = ["derive"] }
serde_json = "=1.0.154"
sha1 = "=0.11.0"
ureq = { version = "=3.5.1", features = ["json", "native-tls"] }
