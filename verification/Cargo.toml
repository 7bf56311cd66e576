[package]
name = "reflection"
version = "0.1.0"
edition = "2021"
publish = false

[dependencies]
serde = { version = "=1.0.229", features = ["derive"] }
crossbeam-channel = "=0.5.17"
parking_lot = "=0.12.5"
tracing = "=0.1.44"
tracing-core = "=0.1.36"
tracing-subscriber = { version = "=0.2.25", default-features = false, features = ["registry"] }
tracing-log = { version = "=0.1.4", default-features = false, features = ["log-tracer", "std"] }
log = "=0.4.35"
env_logger = { version = "=0.9.3", default-features = false }
tui = { version = "=0.19.0", default-features = false, features = ["crossterm"] }
crossterm = "=0.25.0"
