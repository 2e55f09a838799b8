[package]
name = "catalog_fetch"
version = "0.1.0"
edition = "2021"
publish = false

[dependencies]
env_logger = { version = "0.11", default-features = false }
futures-util = { version = "0.3", default-features = false, features = ["std"] }
librespot-audio = "0.4.2"
librespot-core = "0.4.2"
librespot-metadata = "0.4.2"
log = "0.4"
regex = "1"
sanitize-filename = "0.5"
tokio = { version = "1", features = ["macros", "rt-multi-thread", "time"] }
