[package]
name = "kbdstat"
version = "0.1.0"
edition = "2021"
publish = false

[dependencies]
regex = "1"
clap = "2"
termion = "1"
tui = { version = "0.19", default-features = false, features = ["termion"] }
evdev-rs = "*"
notify-rust = "4"
