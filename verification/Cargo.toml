[package]
name = "rudo"
version = "0.1.0"
edition = "2021"
publish = false

[dependencies]
bincode = "1"
clap = { version = "4", features = ["derive"] }
fork = "*"
libc = "0.2"
pam = "*"
rpassword = "*"
serde = { version = "1", features = ["derive"] }
toml = "*"
users = "*"
which = "*"
