[package]
name = "st7789_dma"
version = "0.1.0"
edition = "2021"
publish = false

[dependencies]
cortex-m = "*"
embedded-hal = "*"
fugit = "*"
panic-halt = "*"
rp235x-hal = "*"
