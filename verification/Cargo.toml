[package]
name = "sekey"
version = "0.1.0"
edition = "2021"
publish = false

[dependencies]
sha1 = "=0.6.1"
ssh-agent = { version = "=0.2.4", features = ["agent"] }
