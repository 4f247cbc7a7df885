[package]
name = "typist"
version = "0.1.0"
edition = "2021"
publish = false

[dependencies]
chrono = "0.4"
console = "0.15"
crossterm = "0.28"
itertools = "0.13"
rand = "0.8"
ratatui = "0.29"
