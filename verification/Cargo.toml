[package]
name = "beatbox"
version = "0.1.0"
edition = "2021"
publish = false

[dependencies]
alsa = "*"
anyhow = "1"
gpiod = "*"
hound = "3"
linux-embedded-hal = "*"
thiserror = "*"
