[package]
name = "mango"
version = "0.1.0"
edition = "2021"
publish = false

[dependencies]
fixed = "1"
solana-program = "1"
spl-token = { version = "3", features = ["no-entrypoint"] }
serum_dex = "0.5"
bytemuck = "1"
arrayref = "0.3"
enumflags2 = "0.6"
