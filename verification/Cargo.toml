[package]
name = "matrix_sdk_crypto"
version = "0.1.0"
edition = "2021"
publish = false

[dependencies]
olm-rs = "=0.5.0"
cjson = "=0.1.2"
serde_json = "=1.0.154"
thiserror = "=1.0.69"
async-trait = "=0.1.92"
ruma-events = "=0.21.3"
tokio = { version = "=1.54.1", default-features = false, features = ["sync"] }
