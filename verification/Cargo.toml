[package]
name = "jeopardy"
version = "0.1.0"
edition = "2021"
publish = false

[dependencies]
memorable-wordlist = "=0.1.7"
rand = "=0.8.8"
rand_chacha = "=0.3.1"
uuid = { version = "=1.29.0", features = ["v4"] }
sha2 = "=0.10.9"
data-url = "=0.3.2"
chrono = "=0.4.45"
wamp_async = "=0.3.1"
# wamp_async brings rmp-serde 0.15, which does not compile against rmp 0.8.15
# and later: rmp is named only to hold it at a release that does.
rmp = "=0.8.10"
tokio = { version = "=1.54.1", features = ["rt-multi-thread", "macros", "sync", "time", "fs", "io-util"] }
parking_lot = "=0.12.5"
csv = "=1.4.0"
serde = { version = "=1.0.229", features = ["derive"] }
log = "=0.4.34"
env_logger = "=0.11.11"
lazy_static = "=1.5.1"
once_cell = "=1.21.4"
futures = "=0.3.34"
