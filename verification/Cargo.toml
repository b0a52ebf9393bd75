[package]
name = "tray_bridge"
version = "0.1.0"
edition = "2021"
publish = false

[dependencies]
gtk = "*"
glib = "*"
stray = "*"
tokio = { version = "*", features = ["rt-multi-thread", "sync"] }
