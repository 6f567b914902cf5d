[package]
name = "serial_unit_testing"
version = "0.2.0"
edition = "2021"
publish = false

[dependencies]
regex = "1"
clap = "2.33"
colored = "1.9"
serialport = { version = "3.3", default-features = false }
tui = { version = "0.8", default-features = false, features = ["crossterm"] }
crossterm = "0.14"
