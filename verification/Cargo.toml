[package]
name = "amail"
version = "0.1.0"
edition = "2021"
publish = false

[dependencies]
ammonia = "3"
base64 = "0.21"
chrono = "0.4"
mailparse = "*"
mime_guess = "2"
regex = "1"
textwrap = "0.16"
