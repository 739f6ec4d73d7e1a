[package]
name = "shusei"
version = "0.1.0"
edition = "2021"
publish = false

[dependencies]
serde = { version = "=1.0.229", features = ["derive"] }
serde_json = { version = "=1.0.154", features = ["preserve_order"] }
uuid = { version = "=1.29.1", features = ["v4"] }
thiserror = "=1.0.69"
anyhow = "=1.0.104"
log = "=0.4.35"
env_logger = "=0.11.11"
rusqlite = { version = "=0.41.1", features = ["bundled"] }
tokenizers = { version = "=0.23.2", default-features = false, features = ["fancy-regex"] }
hayro = "=0.9.0"
rayon = "=1.12.0"
image = { version = "=0.25.10", default-features = false, features = ["png", "jpeg"] }
ndarray = "=0.17.2"
tract-onnx = "=0.23.9"
tokio = { version = "=1.54.1", features = ["sync", "time", "rt", "macros"] }
async-trait = "=0.1.92"
once_cell = "=1.21.4"
parking_lot = "=0.12.5"
jni = "=0.21.1"
ndk-context = "0.1"
libc = "=0.2.191"
