[package]
name = "reader_buddy"
version = "0.1.0"
edition = "2021"
publish = false

[dependencies]
anyhow = "*"
base64 = "*"
clap = { version = "*", features = ["derive", "env"] }
dotenv = "*"
env_logger = "*"
evdev = "*"
image = "*"
log = "*"
resvg = "*"
serde = { version = "*", features = ["derive"] }
serde_json = "*"
ureq = { version = "*", features = ["json"] }
