[package]
name = "architect_chain"
version = "0.1.0"
edition = "2021"
publish = false

[dependencies]
aes-gcm = "0.10"
argon2 = "0.5"
bs58 = "0.5"
clap = { version = "4", features = ["derive"] }
data-encoding = "2"
env_logger = "0.11"
log = "0.4"
num-bigint = "0.4"
once_cell = "1"
rand = "0.8"
ring = "0.17"
ripemd = "0.1"
serde = { version = "1", features = ["derive"] }
serde_json = "1"
sled = "0.34"
uuid = { version = "1", features = ["v4"] }
zeroize = { version = "1", features = ["derive"] }

[dev-dependencies]
bincode = "2"
