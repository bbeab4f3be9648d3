[package]
name = "vm"
version = "0.1.0"
edition = "2021"
publish = false

[dependencies]
rand = "0.8"
serde = { version = "1", features = ["derive"] }
serde_json = "1"
structopt = "0.3"
atty = "0.2"
tempfile = "3"
qapi = { version = "*", features = ["qmp"] }
tmux_interface = "*"
