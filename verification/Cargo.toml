[package]
name = "tuner"
version = "0.1.0"
edition = "2021"
publish = false

[dependencies]
heapless = "=0.5.6"
libm = "=0.2.16"
embedded-graphics = "=0.6.2"
wio_terminal = "=0.3.0"
seeed-erpc = "=0.1.1"
cortex-m = "=0.6.7"
cortex-m-rt = "=0.6.15"
panic-halt = "=0.2.0"
