[package]
name = "txio_cli"
version = "0.1.0"
edition = "2021"
publish = false

[dependencies]
strsim = "0.11"
anyhow = "1"
async-trait = "0.1"
clap = { version = "4", features = ["derive", "env"] }
clap_complete = "4"
colored = "2"
dialoguer = "0.11"
dirs-next = "2"
dotenvy = "0.15"
reqwest = { version = "0.12", default-features = false, features = ["json"] }
serde = { version = "1", features = ["derive"] }
serde_json = "1"
tokio = { version = "1", features = ["macros", "rt-multi-thread", "time"] }
