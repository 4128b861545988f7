[package]
name = "sn_node"
version = "0.1.0"
edition = "2021"
publish = false

[dependencies]
xor_name = "=1.3.0"
itertools = "=0.10.5"
sn_messaging = "=25.1.1"
sn_data_types = "=0.18.4"
# Not named in the sources: sn_messaging asks rmp-serde 0.15 for "rmp 0.8.8 or
# later", and rmp-serde 0.15 does not compile against rmp 0.8.15.
rmp = "=0.8.10"
tokio = { version = "=1.54.1", features = ["sync", "rt", "macros", "fs"] }
futures = "=0.3.34"
log = "=0.4.34"
env_logger = "=0.8.4"
async-log = "=2.0.0"
bincode = "=1.3.3"
bytes = "=1.12.1"
serde = { version = "=1.0.229", features = ["derive"] }
rand = "=0.7.3"
pickledb = "=0.4.1"
unwrap = "=1.2.1"
threshold_crypto = "=0.4.0"
ed25519-dalek = "=1.0.1"
