[package]
name = "cyborg_pallets"
version = "0.1.0"
edition = "2021"
publish = false

[dependencies]
parity-scale-codec = { version = "3", features = ["derive"] }
scale-info = { version = "2", features = ["derive"] }
frame-support = "*"
frame-system = "*"
sp-runtime = "*"
sp-io = "*"
sp-core = "*"
sp-std = "*"
log = "0.4"
serde = { version = "1", features = ["derive"] }
