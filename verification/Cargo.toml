[package]
name = "clockit"
version = "0.1.0"
edition = "2021"
publish = false

[dependencies]
chrono = "0.4"
clap = "2"
console = "0.15"
diesel = { version = "1.4", features = ["sqlite"] }
dotenv = "0.15"
prettytable-rs = "0.10"
