[package]
name = "strategy_api"
version = "0.1.0"
edition = "2021"
publish = false

[dependencies]
rust_decimal = "=1.43.0"
chrono = "=0.4.45"
thiserror = "=2.0.21"
rustc-hash = "=2.1.3"
