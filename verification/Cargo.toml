[package]
name = "swiftdns"
version = "0.1.0"
edition = "2021"
publish = false

[dependencies]
anyhow = "=1.0.104"
bytes = "=1.12.1"
chrono = "=0.4.45"
clap = { version = "=4.6.7", features = ["derive"] }
colored = "=2.2.0"
confy = "=0.5.1"
dns-message-parser = "=0.9.0"
idna = "=0.5.0"
reqwest = { version = "=0.11.27", default-features = false, features = ["json", "socks", "rustls-tls"] }
serde = { version = "=1.0.229", features = ["derive"] }
tabwriter = "=1.4.1"
tokio = { version = "=1.54.1", features = ["macros", "rt-multi-thread"] }
urlencoding = "=2.1.3"
wildmatch = "=2.7.0"
