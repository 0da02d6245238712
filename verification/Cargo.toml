[package]
name = "tool_uninstall"
version = "0.1.0"
edition = "2021"
publish = false

[dependencies]
itertools = "*"
rayon = "1"
clap = { version = "4", features = ["derive"] }
color-print = "0.3"
console = "*"
eyre = "0.6"
