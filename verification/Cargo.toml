[package]
name = "mwa_hyperdrive"
version = "0.1.0"
edition = "2021"
publish = false

[dependencies]
hifitime = "=3.9.0"
regex = "=1.13.1"
permissions = "=0.4.1"
glob = "=0.3.4"
thiserror = "=1.0.69"
log = "=0.4.35"
structopt = "=0.3.26"
fern = "=0.6.2"
serde = { version = "1", features = ["derive"] }
serde_yaml = "0.8"
serde_json = "1"
