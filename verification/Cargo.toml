[package]
name = "webcrawler"
version = "0.1.0"
edition = "2021"
publish = false

[dependencies]
url = "*"
toml = "*"
rand = "*"
texting_robots = "*"
tl = "*"
tokio = { version = "*", features = ["rt", "time", "macros"] }
reqwest = { version = "*", default-features = false, features = ["blocking"] }
serde = "*"
serde_derive = "*"
serde_json = "*"
serde_yaml = "*"
thiserror = "*"
async-recursion = "*"
tracing = "*"
tracing-subscriber = { version = "*", features = ["env-filter", "fmt"] }
env_logger = "*"
log = "*"
