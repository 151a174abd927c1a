[package]
name = "drue"
version = "0.1.0"
edition = "2021"
publish = false

[dependencies]
clap = "2"
dotenv = "0.15"
huemanity = "*"
midir = "*"
serde_json = "1"
