[package]
name = "dioxide"
version = "0.1.0"
edition = "2021"
publish = false

[dependencies]
crc_all = "*"
heapless = "0.7"
embedded-hal = "0.2"
embedded-graphics = "0.7"
embedded-vintage-fonts = "0.1"
epd-waveshare = "0.5"
profont = "0.5"
nrf52840-hal = "0.16"
cortex-m-rt = "0.7"
switch-hal = "0.4"
sh1106 = "0.4"
shared-bus = "0.2"
defmt = "0.3"
