[package]
name = "ensan"
version = "0.1.0"
edition = "2021"
publish = false

[dependencies]
hcl-rs = "*"
base64 = "*"
serde_json = "*"
serde_yml = "*"
sha2 = "*"
sha1 = "*"
md-5 = "*"
bcrypt = "*"
uuid = { version = "*", features = ["v4", "v5"] }
