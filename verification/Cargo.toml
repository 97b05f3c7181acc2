[package]
name = "ikv"
version = "0.1.0"
edition = "2021"
publish = false

[dependencies]
anyhow = "*"
aws-config = "*"
aws-sdk-s3 = "*"
flate2 = "*"
jni = "*"
log = "*"
protobuf = "*"
tar = "*"
tokio = { version = "*", features = ["macros", "rt"] }
