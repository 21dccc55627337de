[package]
name = "pyc-shell"
version = "0.2.0"
edition = "2021"
publish = false

[dependencies]
regex = "1"
yaml-rust = "0.4"
nix = { version = "*", features = ["signal", "process", "fs", "poll", "term"] }
termios = "*"
uuid = { version = "*", features = ["v4"] }
whoami = "*"
tempfile = "3"
git2 = { version = "*", default-features = false }
getopts = "0.2"
dirs = "*"
ansi_term = "0.12"
