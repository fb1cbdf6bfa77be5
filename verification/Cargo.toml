[package]
name = "northstar_init"
version = "0.1.0"
edition = "2021"
publish = false

[dependencies]
caps = "0.5"
itertools = "0.10"
libc = "0.2"
log = "0.4"
nix = "0.25"
rlimit = "0.8"
serde = { version = "1", features = ["derive"] }
