[package]
name = "hunter"
version = "0.1.0"
edition = "2021"
publish = false

[dependencies]
termion = "=1.5.6"
rust-ini = "=0.15.3"
unicode-width = "=0.1.14"
parse-ansi = "=0.1.6"
alphanumeric-sort = "=1.4.4"
systemstat = "=0.1.12"
mime = "=0.3.17"
dirs-2 = "=1.1.0"
clap = "=2.33.4"
chrono = "=0.4.45"
rayon = "=1.12.0"
users = "=0.11.0"
mime_guess = "2"
