[package]
name = "moosicbox"
version = "0.1.0"
edition = "2021"
publish = false

[dependencies]
itertools = "=0.13.0"
regex = "=1.13.1"
bytesize = "=1.3.3"
toml = "=0.8.23"
serde = { version = "=1.0.229", features = ["derive"] }
serde_json = "=1.0.154"
clap = { version = "=4.6.7", features = ["derive"] }
maud = "=0.26.0"
log = "=0.4.35"
image = { version = "=0.25.10", default-features = false, features = ["jpeg"] }
webp = { version = "=0.3.1", default-features = false, features = ["img"] }
tokio = { version = "=1.54.1", features = ["rt"] }
thiserror = "=2.0.21"
bytes = "=1.12.1"
rupnp = { version = "=2.0.0", features = ["full_device_spec"] }
futures = "=0.3.34"
pin-utils = "=0.1.1"
