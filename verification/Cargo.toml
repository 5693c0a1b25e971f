[package]
name = "matrix_sdk_base"
version = "0.1.0"
edition = "2021"
publish = false

[dependencies]
js_int = "=0.2.2"
ruma-common = "=0.15.4"
serde_json = "=1.0.151"
tokio = { version = "*", default-features = false, features = ["sync"] }
eyeball = "*"
eyeball-im = "*"
futures-util = "*"
