[package]
name = "linux-clipboard"
version = "0.1.0"
edition = "2021"
publish = false

[dependencies]
sha2 = "=0.10.9"
serde = { version = "=1.0.229", features = ["derive"] }
serde_json = "=1.0.154"
rusqlite = { version = "=0.41.1", features = ["bundled"] }
ureq = { version = "=2.12.1", features = ["json"] }
image = { version = "=0.25.10", default-features = false, features = ["png"] }
arboard = "=3.7.0"
tokio = { version = "=1.54.1", features = ["rt", "sync", "time"] }
enumflags2 = "=0.7.12"
futures-util = "=0.3.34"
reis = { version = "=0.7.1", features = ["tokio"] }
ashpd = { version = "=0.13.13", default-features = false, features = ["tokio", "remote_desktop", "screencast"] }
xkbcommon = "=0.9.0"
enigo = "=0.6.1"
