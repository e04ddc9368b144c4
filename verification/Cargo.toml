[package]
name = "cairo_trace"
version = "0.1.0"
edition = "2021"
publish = false

[dependencies]
starknet-types-core = "*"
starknet-ff = "*"
serde = { version = "*", features = ["derive"] }
serde_json = "*"
