[package]
name = "tginbox"
version = "0.1.0"
edition = "2021"
publish = false

[dependencies]
mail-parser = "=0.11.9"
nanohtml2text = "=0.3.0"
mailin-embedded = "=0.8.3"
ureq = { version = "=3.4.2", features = ["json"] }
serde = { version = "1", features = ["derive"] }
serde_derive = "1"
serde_json = "1"
clap = { version = "4", features = ["derive"] }
log = "*"
env_logger = "*"
nix = { version = "=0.31.3", features = ["process"] }
