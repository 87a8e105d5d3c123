[package]
name = "posh"
version = "0.1.0"
edition = "2021"
publish = false

[dependencies]
glow = "*"
crevice = "*"
bytemuck = { version = "1", features = ["derive"] }
glam = "*"
mint = "*"
fxhash = "0.2"
log = "0.4"
smallvec = "1"
thiserror = "1"
