[package]
name = "kungfu"
version = "2.0.0"
edition = "2021"
publish = false

[dependencies]
byteorder = "=1.5.0"
chrono = "=0.4.45"
clap = "=2.34.0"
config = "=0.10.1"
env_logger = "=0.7.1"
futures = "=0.3.34"
ipnet = "=2.12.2"
log = "=0.4.34"
num_cpus = "=1.17.0"
serde = { version = "=1.0.229", features = ["derive"] }
serde_derive = "=1.0.229"
tokio = { version = "=0.2.25", features = ["full"] }
tokio-util = { version = "=0.3.1", features = ["codec"] }
trust-dns-client = "=0.19.7"
trust-dns-proto = "=0.19.7"
trust-dns-resolver = "=0.19.7"
trust-dns-server = "=0.19.7"
tun = { version = "=0.5.0", features = ["async"] }

[dev-dependencies]
pnet = "=0.35.0"
