[package]
name = "voxelize"
version = "0.1.0"
edition = "2021"
publish = false

[dependencies]
base64 = "0.13"
libflate = "*"
serde = { version = "*", features = ["derive"] }
serde_json = "*"
specs = "*"
message-io = "*"
nanoid = "*"
