[package]
name = "caster_bridge"
version = "0.1.0"
edition = "2021"
publish = false

[dependencies]
indexmap = { version = "=2.14.2", features = ["serde"] }
regex = "=1.13.1"
serde = { version = "=1.0.229", features = ["derive"] }
serde_json = "=1.0.154"
tokio = { version = "=1.54.1", features = ["full"] }
reqwest = { version = "=0.12.28", default-features = false, features = ["json"] }
tokio-tungstenite = "=0.30.0"
futures-util = "=0.3.34"
tiny_http = "=0.12.0"
dirs = "=7.0.0"
rfd = { version = "=0.17.2", default-features = false, features = ["xdg-portal"] }
eframe = { version = "=0.37.0", default-features = false, features = ["glow", "default_fonts", "x11"] }
egui_extras = { version = "=0.37.0", default-features = false }
