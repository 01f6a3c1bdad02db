[package]
name = "vtx_cli"
version = "0.1.0"
edition = "2021"
publish = false

[dependencies]
anyhow = "=1.0.104"
clap = { version = "=4.6.7", features = ["derive"] }
colored = "=3.1.1"
serde = { version = "=1.0.229", features = ["derive"] }
serde_json = "=1.0.151"
toml = "=1.1.7"
vtx-format = "=0.1.6"
vtx-sdk = { version = "=0.1.14", features = ["meta"] }
wasi-preview1-component-adapter-provider = "=49.0.2"
wasmparser = "=0.261.0"
wit-component = "=0.261.0"
