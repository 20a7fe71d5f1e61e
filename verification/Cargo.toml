[package]
name = "gpio_config"
version = "0.1.0"
edition = "2021"
publish = false

[dependencies]
errno = "0.2.8"
libc = "0.2"
