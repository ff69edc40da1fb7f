[package]
name = "iota_logic"
version = "0.1.0"
edition = "2021"
publish = false

[dependencies]
fastcrypto = "=0.1.11"
num-bigint = "=0.4.8"
num-traits = "=0.2.19"
leb128 = "=0.2.7"
anyhow = "=1.0.104"
bcs = "=0.1.6"
serde = { version = "=1.0.229", features = ["derive"] }
serde_json = "=1.0.154"
codespan-reporting = "0.11.1"
similar = "2"
