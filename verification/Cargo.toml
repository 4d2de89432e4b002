[package]
name = "rumpelpod"
version = "0.1.0"
edition = "2021"
publish = false

[dependencies]
anyhow = "1"
base64 = "0.22"
flate2 = "1"
futures-util = "0.3"
git2 = { version = "*", default-features = false }
hex = "0.4"
libc = "0.2"
log = "0.4"
nix = { version = "*", features = ["signal", "process"] }
rand = "*"
reqwest = { version = "*", default-features = false, features = ["json", "gzip", "stream", "query"] }
serde = { version = "1", features = ["derive"] }
serde_json = "1"
sha2 = "*"
tempfile = "3"
tokio = { version = "1", features = ["full"] }
tokio-stream = "0.1"
tokio-util = { version = "0.7", features = ["io", "rt"] }
