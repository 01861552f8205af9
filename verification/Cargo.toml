[package]
name = "mdx_model"
version = "0.1.0"
edition = "2021"
publish = false

[dependencies]
blp = "*"
image = { version = "*", default-features = false, features = ["png"] }
base64 = "*"
serde = { version = "1", features = ["derive"] }
serde_json = "1"
wow-mpq = "*"
