[package]
name = "pico_project"
version = "0.1.0"
edition = "2021"
publish = false

[dependencies]
cortex-m = "=0.7.10"
cortex-m-rt = "=0.7.7"
critical-section = "=1.2.0"
embedded-graphics = "=0.8.2"
embedded-hal = "=1.0.0"
fugit = "=0.3.9"
heapless = "=0.8.0"
panic-halt = "=1.0.0"
pio = "=0.2.1"
rp2040-boot2 = "=0.3.0"
rp2040-hal = { version = "=0.11.0", features = ["rt", "critical-section-impl"] }
smart-leds = "=0.4.0"
ssd1306 = "=0.10.0"
ws2812-pio = "=0.9.0"
