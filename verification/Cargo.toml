[package]
name = "soklyn"
version = "0.1.0"
edition = "2021"
publish = false

[dependencies]
bytemuck = "1"
cudarc = { version = "0.19", default-features = false, features = ["std", "driver", "nvrtc", "f16", "cuda-12080", "dynamic-loading"] }
env_logger = "0.11"
half = { version = "2", features = ["bytemuck"] }
indexmap = { version = "2", features = ["serde"] }
log = "0.4"
rand = "0.9"
rand_chacha = "0.9"
serde = { version = "1", features = ["derive"] }
serde_json = "1"
tempfile = "3"
thiserror = "2"
