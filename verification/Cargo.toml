[package]
name = "korg_syro"
version = "0.1.0"
edition = "2021"
publish = false

[dependencies]
array-init = "*"
byteorder = "*"
korg-syro-sys = "*"
num_enum = "*"
thiserror = "*"

[dev-dependencies]
anyhow = "*"
waver = "*"
