[package]
name = "trusdx_bridge"
version = "0.1.0"
edition = "2021"
publish = false

[dependencies]
anyhow = "1"
glib = "0.18"
gtk = "0.18"
libpulse-binding = "2"
libpulse-simple-binding = "2"
serialport = { version = "4", default-features = false }
