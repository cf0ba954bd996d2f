[package]
name = "aleph"
version = "0.1.0"
edition = "2021"
publish = false

[dependencies]
base64 = "*"
chrono = "*"
dirs = "*"
futures = "*"
icns = "*"
image = { version = "*", default-features = false, features = ["png"] }
jwalk = "*"
notify = "*"
opener = "*"
regex = "*"
tantivy = "*"
tokio = { version = "*", features = ["rt-multi-thread", "macros", "time"] }

[dev-dependencies]
tempfile = "*"
