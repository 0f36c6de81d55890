[package]
name = "enclave_demos"
version = "0.1.0"
edition = "2021"
publish = false

[dependencies]
serde_json = "1"
threadpool = "1.8"
rustls = "0.19"
webpki = "0.21"
webpki-roots = "0.21"
sgx_types = "*"
