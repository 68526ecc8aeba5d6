[package]
name = "orban_agent_core"
version = "0.1.0"
edition = "2021"
publish = false

[dependencies]
sha2 = "*"
hex = "*"
base64 = "*"
ed25519-dalek = "*"
rand = "0.8"
uuid = { version = "*", features = ["v4"] }
chrono = { version = "*", features = ["serde"] }
serde = { version = "*", features = ["derive"] }
serde_json = "*"
tokio = { version = "*", features = ["full"] }
tokio-tungstenite = "*"
futures = "*"
reqwest = { version = "*", default-features = false, features = ["json"] }
clap = { version = "*", features = ["derive"] }
colored = "*"
daemonize = "*"
directories = "*"
dirs = "*"
hostname = "*"
nix = { version = "*", features = ["signal"] }
num_cpus = "*"
sysinfo = "*"
toml = "*"
async-trait = "*"
bollard = "*"
nvml-wrapper = "*"
