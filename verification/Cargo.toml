[package]
name = "lifi-solana-programs"
version = "0.1.0"
edition = "2021"
publish = false

[dependencies]
solana-program = "2.3"
spl-token = "7"
spl-token-2022 = "6"
spl-associated-token-account = "6"
sha2 = "0.10"
borsh = "1"
borsh-derive = "1"
anchor-lang = "0.31.1"
anchor-spl = "0.31.1"
