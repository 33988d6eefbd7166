[package]
name = "protoviz"
version = "0.1.0"
edition = "2021"
publish = false

[dependencies]
hex_color = { version = "*", features = ["serde"] }
serde = { version = "*", features = ["derive"] }
tera = { version = "*", default-features = false }
thiserror = "*"
