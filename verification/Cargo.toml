[package]
name = "bucket_store"
version = "0.1.0"
edition = "2021"
publish = false

[dependencies]
bincode = "1.3"
byteorder = "1"
crossbeam-queue = "0.3"
dashmap = "5"
env_logger = "0.9"
fs2 = "0.4"
log = "0.4"
num_cpus = "1"
page_size = "0.4"
parking_lot = "0.12"
rayon = "1"
serde = { version = "1", features = ["derive"] }
uuid = "1"
