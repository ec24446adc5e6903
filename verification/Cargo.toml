[package]
name = "extanded_spl"
version = "0.1.0"
edition = "2021"
publish = false

[dependencies]
borsh = { version = "=1.8.1", features = ["derive"] }
light-hasher = "=1.1.1"
light-sdk-macros = "=0.4.0"
light-utils = "=1.1.0"
solana-program = "=1.18.22"
thiserror = "=1.0.69"
