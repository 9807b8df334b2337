[package]
name = "joshuto"
version = "0.1.0"
edition = "2021"
publish = false

[dependencies]
globset = "0.4"
libc = "0.2"
rand = "0.8"
signal-hook = "0.3"
termion = "1.5"
tui = { version = "0.19", default-features = false, features = ["termion"] }
