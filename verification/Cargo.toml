[package]
name = "hashbench"
version = "0.1.0"
edition = "2021"
publish = false

[dependencies]
anyhow = "1"
argon2 = "0.5"
bcrypt = "*"
clap = { version = "4", features = ["derive"] }
colored = "*"
rand_core = { version = "0.6", features = ["getrandom"] }
serde = { version = "1", features = ["derive"] }
serde_json = "1"
sysinfo = "*"
