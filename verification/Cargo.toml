[package]
name = "micro"
version = "0.1.0"
edition = "2021"
publish = false

[dependencies]
chrono = { version = "0.4", default-features = false, features = ["std", "now"] }
clap = "3"
futures = "0.3"
log = "0.4"
pretty_env_logger = "0.4"
pulldown-cmark = { version = "0.8", default-features = false }
regex = "1"
serde_yaml = "0.8"
simple-error = "0.2"
tokio = { version = "1", features = ["full"] }
uuid = { version = "1", features = ["v4"] }
warp = "0.3"
webbrowser = "0.8"
