[package]
name = "quiz_player"
version = "0.1.0"
edition = "2021"
publish = false

[dependencies]
chrono = "=0.4.45"
clap = { version = "=4.6.7", features = ["derive"] }
colored = "=3.1.1"
dotenv = "=0.15.0"
env_logger = "=0.11.11"
fantoccini = { version = "=0.22.1", default-features = false, features = ["rustls-tls"] }
image = "=0.25.10"
log = "=0.4.34"
ocrs = "=0.13.1"
rten = "=0.26.0"
serde = { version = "=1.0.229", features = ["derive"] }
serde_json = "=1.0.151"
tokio = { version = "=1.53.2", features = ["macros", "rt-multi-thread", "time", "process", "io-util"] }
