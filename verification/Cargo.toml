[package]
name = "oh_tray"
version = "0.1.0"
edition = "2021"
publish = false

[dependencies]
anyhow = "1"
clap = { version = "4", features = ["derive"] }
command-group = { version = "*", features = ["with-tokio"] }
config = "*"
image = { version = "=0.25.10", default-features = false, features = ["bmp", "dds", "ff", "gif", "ico", "png", "pnm", "qoi", "tga"] }
serde = { version = "1", features = ["derive"] }
sys-locale = "=0.3.2"
tao = "*"
tokio = { version = "1", features = ["full"] }
tray-icon = "*"
webbrowser = "1"
