[package]
name = "arty"
version = "0.1.0"
edition = "2021"
publish = false

[dependencies]
anyhow = "1"
dotenv = "0.15"
jenkins_api = "*"
prettytable-rs = "*"
regex = "1"
reqwest = { version = "*", default-features = false, features = ["blocking"] }
serde = { version = "1", features = ["derive"] }
structopt = "0.3"
