[package]
name = "torus"
version = "0.1.0"
edition = "2021"
publish = false

[dependencies]
clap = "=2.34.0"
cmdline-parser = "=0.1.0"
linefeed = "=0.4.0"
prettytable-rs = { version = "0.10", default-features = false }
rusqlite = "=0.23.1"
time = "=0.1.45"
xdg = "=2.5.2"
