[package]
name = "spl-token-metadata-interface"
version = "0.1.0"
edition = "2021"
publish = false

[dependencies]
borsh = { version = "=1.8.1", features = ["derive"] }
serde = { version = "=1.0.229", features = ["derive"] }
serde_with = "=3.24.0"
solana-address = { version = "=2.9.0", features = ["borsh", "copy", "decode", "nullable", "serde"] }
solana-borsh = "=3.0.2"
solana-instruction = "=4.0.0"
solana-nullable = { version = "=1.3.0", features = ["borsh", "serde-with"] }
solana-program-error = "=3.0.1"
spl-discriminator = "=0.5.2"

[dev-dependencies]
serde_json = "=1.0.154"
solana-sha256-hasher = { version = "=3.1.0", features = ["sha2"] }
