[package]
name = "mixify"
version = "0.1.0"
edition = "2021"
publish = false

[dependencies]
url = "*"
rspotify = "*"
anyhow = "*"
chrono = "*"
clap = { version = "*", features = ["derive"] }
dotenv = "*"
futures-util = "*"
graphviz-dot-parser = "*"
log = "*"
pretty_env_logger = "*"
tokio = { version = "*", features = ["macros", "rt-multi-thread", "time"] }
