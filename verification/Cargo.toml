[package]
name = "amm"
version = "0.1.0"
edition = "2021"
publish = false

[dependencies]
anchor-lang = { version = "=1.2.2", default-features = false, features = ["solana-v4", "init-if-needed"] }
anchor-spl = { version = "=1.2.2", default-features = false, features = ["solana-v4", "associated_token", "token", "token_2022"] }
solana-commitment-config = "=3.1.1"
solana-keypair = "=4.0.0"
solana-signature = "=3.6.0"
solana-signer = "=4.0.0"
solana-transaction = "=6.0.0"
