[package]
name = "trouble_btp"
version = "0.1.0"
edition = "2021"
publish = false

[dependencies]
bt-hci = "=0.10.1"
embassy-futures = "=0.1.2"
embedded-io = "=0.7.1"
log = "0.4"
static_cell = "=2.1.1"
trouble-host = { version = "=0.8.0", features = ["derive"] }
