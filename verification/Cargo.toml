[package]
name = "efivar"
version = "0.1.0"
edition = "2021"
publish = false

[dependencies]
byteorder = "*"
uuid = "*"
thiserror = "*"
log = "*"
env_logger = "*"
futures = "*"
gio = "*"
libadwaita = "*"
