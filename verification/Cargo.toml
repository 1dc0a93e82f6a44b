[package]
name = "piano"
version = "0.2.1"
edition = "2021"
publish = false

[dependencies]
anyhow = "1"
clap = { version = "4", default-features = false, features = ["derive", "error-context", "help", "std", "usage"] }
cpal = "0.15"
crossterm = { version = "0.28", default-features = false, features = ["events"] }
hound = "3.5"
midir = "0.10"
rtrb = "=0.3.6"
thiserror = "2"
