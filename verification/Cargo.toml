[package]
name = "ogsp_installer"
version = "0.1.0"
edition = "2021"
publish = false

[dependencies]
eframe = { version = "=0.30.0", default-features = false, features = ["default_fonts", "glow"] }
espflash = { version = "=3.3.0", default-features = false, features = ["serialport"] }
glutin-winit = { version = "=0.5.0", default-features = false, features = ["glx", "x11"] }
reqwest = { version = "=0.12.28", default-features = false, features = ["native-tls"] }
serde_json = { version = "=1.0.154", features = ["preserve_order"] }
serialport = { version = "=4.10.1", default-features = false }
tokio = { version = "=1.54.1", features = ["rt-multi-thread"] }
