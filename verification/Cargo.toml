[package]
name = "netero"
version = "0.1.0"
edition = "2021"
publish = false

[dependencies]
chrono = "0.4"
clap = { version = "4", features = ["derive", "env"] }
clap_complete = "4"
futures-util = "0.3"
reqwest = { version = "0.12", default-features = false, features = ["json", "stream", "rustls-tls"] }
ron = "0.8"
rustyline = "14"
serde = { version = "1", features = ["derive"] }
serde_json = "1"
termimad = "0.30"
terminal_size = "0.4"
tokio = { version = "1", features = ["macros", "rt-multi-thread", "net", "io-util"] }
