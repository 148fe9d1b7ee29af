[package]
name = "paat_core"
version = "0.1.0"
edition = "2021"
publish = false

[dependencies]
anyhow = "=1.0.104"
chromiumoxide = { version = "=0.5.7", default-features = false, features = ["tokio-runtime"] }
chrono = "=0.4.45"
dialoguer = "=0.10.4"
env_logger = "=0.10.2"
futures = "=0.3.34"
indicatif = "=0.17.11"
log = "=0.4.34"
reqwest = { version = "=0.11.27", default-features = false, features = ["rustls-tls"] }
serde = { version = "=1.0.229", features = ["derive"] }
serde_json = "=1.0.154"
tokio = { version = "=1.54.1", features = ["macros", "rt-multi-thread", "signal", "sync", "time"] }
tui-realm-stdlib = { version = "=1.3.2", default-features = false, features = ["crossterm", "tui"] }
tuirealm = { version = "=1.9.2", default-features = false, features = ["derive", "with-crossterm"] }
