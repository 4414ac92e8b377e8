[package]
name = "syslog5424"
version = "0.1.0"
edition = "2021"
publish = false

[dependencies]
slog = "*"
chrono = "*"
