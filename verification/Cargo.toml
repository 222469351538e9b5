[package]
name = "ncn_core"
version = "0.1.0"
edition = "2021"
publish = false

[dependencies]
borsh = { version = "=1.8.1", features = ["derive"] }
clap = { version = "=4.6.7", features = ["derive", "env"] }
hex = "=0.4.3"
jito-restaking-program = "*"
jito-vault-program = "*"
solana-sdk = "=2.3.1"
spl-token = { version = "=7.0.0", features = ["no-entrypoint"] }
