[package]
name = "book_lending"
version = "0.1.0"
edition = "2021"
publish = false

[dependencies]
borsh = "1"
solana-program = "1.18"
thiserror = "1"
