[package]
name = "wio_examples"
version = "0.1.0"
edition = "2021"
publish = false

[dependencies]
embedded-graphics = "=0.7.1"
itoa = "=1.0.18"
heapless = "=0.7.17"
microfft = "=0.5.1"
micromath = "=2.1.0"
accelerometer = "=0.12.0"
nb = "=1.1.0"
cortex-m = "=0.7.10"
usb-device = "=0.2.9"
usbd-serial = "=0.1.1"
panic-halt = "=0.2.0"
atsamd-hal = "=0.15.1"
wio_terminal = "=0.6.1"
# Not used directly: wio_terminal 0.6.1 needs its wifi feature to compile, and
# that feature only compiles against seeed-erpc 0.1.1, not the newer 0.1.3.
seeed-erpc = "=0.1.1"
