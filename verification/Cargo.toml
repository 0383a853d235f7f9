[package]
name = "exchange_gateway"
version = "0.1.0"
edition = "2021"
publish = false

[dependencies]
actix-web = "=4.18.1"
binance-sdk = { version = "=77.0.0", features = ["derivatives_trading_usds_futures", "spot"] }
config = "=0.15.27"
reqwest = { version = "=0.12.28", default-features = false }
rust_decimal = "=1.43.0"
serde = { version = "=1.0.229", features = ["derive"] }
tracing = "=0.1.44"
tracing-subscriber = "=0.3.23"
