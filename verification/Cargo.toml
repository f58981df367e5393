[package]
name = "pastebin"
version = "0.1.0"
edition = "2021"
publish = false

[dependencies]
uuid = { version = "*", features = ["v4"] }
rocket = "*"
rocket_dyn_templates = { version = "*", features = ["tera"] }
dotenv = "*"
log = "*"
