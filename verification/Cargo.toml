[package]
name = "ratfist"
version = "0.1.0"
edition = "2021"
publish = false

[dependencies]
anyhow = "1"
chrono = "0.4"
clap = "2"
ctrlc = "3"
diesel = { version = "1.4", features = ["sqlite", "r2d2"] }
dotenv = "0.15"
env_logger = "*"
i2cdev = "*"
log = "0.4"
prettytable-rs = "*"
rand = "0.6"
regex = "1"
rocket = { version = "0.5", features = ["json"] }
serde = { version = "1", features = ["derive"] }
serial = "0.4"
