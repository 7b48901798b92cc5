[package]
name = "ipc_agent"
version = "0.1.0"
edition = "2021"
publish = false

[dependencies]
anyhow = "=1.0.104"
async-trait = "=0.1.92"
cid = "=0.11.3"
clap = { version = "=4.6.7", features = ["derive"] }
ethers = { version = "=2.0.14", default-features = false }
futures-util = "=0.3.34"
fvm_ipld_encoding = "=0.5.4"
fvm_shared = "=4.8.4"
log = "=0.4.34"
num-traits = "=0.2.19"
serde = { version = "=1.0.229", features = ["derive"] }
serde_json = "=1.0.154"
tokio = { version = "=1.54.1", features = ["full"] }
tokio-graceful-shutdown = "=0.13.0"
