[package]
name = "rustberry"
version = "0.1.0"
edition = "2021"
publish = false

[dependencies]
chrono = "=0.4.45"
rppal = "=0.22.1"
anyhow = "=1.0.104"
serde = { version = "=1.0.229", features = ["derive"] }
serde_json = "=1.0.154"
clap = { version = "=4.6.7", features = ["derive"] }
ctrlc = "=3.5.2"
log = "=0.4.35"
env_logger = "=0.11.11"
dotenv = "=0.15.0"
async-std = { version = "=1.13.2", features = ["attributes"] }
sqlx = { version = "=0.9.0", default-features = false, features = ["postgres", "runtime-async-std", "chrono", "macros"] }
actix-web = "=4.18.1"
actix-cors = "=0.7.2"
lettre = { version = "=0.11.23", default-features = false, features = ["builder", "smtp-transport", "rustls-tls"] }
mcp3008 = "*"
