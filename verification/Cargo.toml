[package]
name = "luftpost"
version = "0.1.0"
edition = "2021"
publish = false

[dependencies]
clap = "2"
futures = "0.1"
handlebars = "0.29"
hyper = "0.11"
lettre = "0.6"
serde = { version = "1", features = ["derive"] }
serde_json = "1"
tabwriter = "1"
tokio-core = "0.1"
toml = "0.4"
