[package]
name = "openhcl_boot"
version = "0.1.0"
edition = "2021"
publish = false

[dependencies]
log = "0.4"
static_assertions = "1.1"
zerocopy = { version = "0.8", features = ["derive"] }
