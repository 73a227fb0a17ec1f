[package]
name = "keybox"
version = "0.1.0"
edition = "2021"
publish = false

[dependencies]
anyhow = "1"
base64 = "0.22"
libc = "0.2"
nix = { version = "0.29", features = ["signal"] }
p256 = "0.13"
p384 = "0.13"
quick-xml = { version = "0.37", features = ["serialize"] }
rand = "0.8"
rcgen = "0.13"
ring = "0.17"
rsa = "0.9"
serde = { version = "1", features = ["derive"] }
serde_json = "1"
tracing = "0.1"
ureq = "2"
x509-parser = "0.16"
