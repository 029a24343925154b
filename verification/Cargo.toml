[package]
name = "lights_core"
version = "0.1.0"
edition = "2021"
publish = false

[dependencies]
async-trait = "=0.1.92"
coap-lite = "=0.9.1"
coap-server = "=0.1.1"
dotenv = "=0.15.0"
env_logger = "=0.11.11"
serde = { version = "=1.0.229", features = ["derive"] }
serde_json = "=1.0.151"
tokio = { version = "=1.53.2", features = ["macros", "rt-multi-thread", "time", "sync"] }
