[package]
name = "prolice"
version = "0.1.0"
edition = "2021"
publish = false

[dependencies]
anyhow = "*"
async-trait = "*"
chrono = "*"
clap = { version = "*", features = ["derive"] }
console = "*"
deadpool = "*"
futures = "*"
handlebars = "*"
log = "*"
octocrab = "*"
once_cell = "*"
reqwest = "*"
serde = { version = "*", features = ["derive"] }
serde_json = "*"
simplelog = "*"
thiserror = "*"
time = "*"
tokio = { version = "*", features = ["full"] }
