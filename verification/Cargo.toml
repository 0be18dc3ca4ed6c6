[package]
name = "magenta_adapters"
version = "0.1.0"
edition = "2021"
publish = false

[dependencies]
base64 = "0.22"
sha2 = "0.10"
serde = { version = "1", features = ["derive"] }
serde_json = "1"
url = "2"
rand = "0.9"
toml_edit = "0.22"
image = { version = "0.25", default-features = false, features = ["png", "jpeg", "webp", "gif"] }
rusqlite = { version = "0.32", features = ["bundled"] }
smol = "2"
futures-util = { version = "0.3", features = ["io"] }
thiserror = "2"
