[package]
name = "bountyhub_runner"
version = "0.1.0"
edition = "2021"
publish = false

[dependencies]
url = "=2.5.8"
uuid = { version = "=1.29.0", features = ["v4", "v7", "serde"] }
shlex = "=1.3.0"
cellang = "=0.7.0"
serde = { version = "=1.0.229", features = ["derive"] }
serde_json = "=1.0.154"
rand = "=0.9.5"
clap = { version = "=4.6.7", features = ["derive"] }
clap_complete = "=4.6.11"
hostname = "=0.4.2"
dotenv = "=0.15.0"
time = { version = "=0.3.55", features = ["serde", "formatting"] }
miette = "=7.6.0"
thiserror = "=2.0.21"
zip = { version = "=2.6.1", default-features = false, features = ["deflate"] }
ureq = { version = "=3.5.1", features = ["json"] }
tracing = "=0.1.44"
tracing-subscriber = "=0.3.23"
sudoservice = { version = "=0.2.0", features = ["systemd"] }
tokio = { version = "1", default-features = false, features = ["rt", "signal"] }
