[package]
name = "ic_rmcp"
version = "0.1.0"
edition = "2021"
publish = false

[dependencies]
jsonwebtoken = "=9.3.1"
url = "=2.5.8"
serde_json = "=1.0.151"
serde = "=1.0.229"
ic-cdk = "=0.18.7"
ic-http-certification = "=4.0.0"
