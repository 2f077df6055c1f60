[package]
name = "op2mapviewer"
version = "0.1.0"
edition = "2021"
publish = false

[dependencies]
image = { version = "0.25", default-features = false, features = ["bmp", "jpeg", "png"] }
thiserror = "1"
zip = { version = "0.6", default-features = false, features = ["deflate"] }
