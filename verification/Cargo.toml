[package]
name = "verkle_commit"
version = "0.1.0"
edition = "2021"
publish = false

[dependencies]
ark-ff = "=0.3.0"
ark-ec = "=0.3.0"
bandersnatch = "=0.1.1"
jni = "0.19"
sha2 = "0.10"
