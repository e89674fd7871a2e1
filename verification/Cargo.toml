[package]
name = "metaport"
version = "0.1.0"
edition = "2021"
publish = false

[dependencies]
serde_json = "*"
serde = { version = "*", features = ["derive"] }
diesel = { version = "*", features = ["postgres", "chrono"] }
dotenv = "*"
structopt = "*"
chrono = "*"
