[package]
name = "boopifier"
version = "0.1.0"
edition = "2021"
publish = false

[dependencies]
anyhow = "1"
async-trait = "0.1"
chrono = "0.4"
clap = { version = "4", features = ["derive"] }
futures = "0.3"
glob = "0.3"
lettre = { version = "0.11", default-features = false, features = ["smtp-transport", "builder"] }
notify-rust = "4"
once_cell = "1"
rand = "0.8"
regex = "1"
reqwest = { version = "0.12", default-features = false, features = ["json"] }
rodio = { version = "0.19", default-features = false, features = ["wav"] }
serde = { version = "1", features = ["derive"] }
serde_json = "1"
serde_path_to_error = "0.1"
shellexpand = "3"
thiserror = "1"
tokio = { version = "1", features = ["macros", "rt-multi-thread", "process"] }
