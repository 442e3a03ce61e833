[package]
name = "keymint_provisioning"
version = "0.1.0"
edition = "2021"
publish = false

[dependencies]
ciborium = "0.2"
der = { version = "0.7", features = ["alloc"] }
x509-cert = "0.2"
anyhow = "1"
clap = { version = "4", features = ["derive"] }
log = "0.4"
libc = "0.2"
android_logger = "*"
