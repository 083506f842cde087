[package]
name = "test_engine"
version = "0.1.0"
edition = "2021"
publish = false

[dependencies]
scrypto-test = "=1.2.0"
radix-common = "=1.2.0"
radix-engine = "=1.2.0"
radix-engine-interface = "=1.2.0"
radix-transactions = "=1.2.0"
radix-substate-store-impls = "=1.2.0"
walkdir = "2"
