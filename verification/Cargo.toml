[package]
name = "qqqa"
version = "0.1.0"
edition = "2021"
publish = false

[dependencies]
anyhow = "*"
atty = "*"
bytes = "*"
chrono = "*"
clap = { version = "*", features = ["derive"] }
dirs = "*"
fs-err = "*"
futures-util = "*"
nu-ansi-term = "*"
os_info = "*"
portable-pty = "*"
reqwest = { version = "*", default-features = false, features = ["json", "stream", "rustls-tls"] }
rustls-pemfile = "*"
serde = { version = "*", features = ["derive"] }
serde_json = "*"
shell-words = "*"
tokio = { version = "*", features = ["full"] }
