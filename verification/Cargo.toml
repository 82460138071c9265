[package]
name = "nixmodule"
version = "0.1.0"
edition = "2021"
publish = false

[dependencies]
clap = { version = "*", features = ["derive"] }
colored = "*"
flate2 = "*"
prettytable-rs = "*"
rand = "*"
reqwest = { version = "*", default-features = false, features = ["blocking"] }
serde = { version = "*", features = ["derive"] }
shellexpand = "*"
tar = "*"
toml = "*"
url = "*"
