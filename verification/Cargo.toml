[package]
name = "query_table"
version = "0.1.0"
edition = "2021"
publish = false

[dependencies]
ratatui = "*"
crossterm = "*"
arboard = { version = "*", default-features = false }
clap = { version = "*", features = ["derive"] }
color-eyre = "*"
thiserror = "*"
