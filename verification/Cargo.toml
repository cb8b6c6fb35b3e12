[package]
name = "cyber_ninja_monitor"
version = "0.1.0"
edition = "2021"
publish = false

[dependencies]
rand = "=0.8.8"
sha2 = "=0.10.9"
serde = { version = "=1.0.229", features = ["derive"] }
serde_json = "=1.0.154"
chrono = { version = "=0.4.45", default-features = false, features = ["now", "serde"] }
dotenv = "=0.15.0"
tokio = { version = "=1.54.1", default-features = false, features = ["rt", "time"] }
reqwest = { version = "=0.11.27", default-features = false, features = ["json", "rustls-tls"] }
sysinfo = { version = "=0.29.11", default-features = false }
eframe = { version = "0.24", default-features = false, features = ["default_fonts", "glow", "x11"] }
