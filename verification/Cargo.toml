[package]
name = "norcina"
version = "0.1.0"
edition = "2021"
publish = false

[dependencies]
rand = { version = "0.9", features = ["small_rng"] }
pathfinding = "4"
owo-colors = "*"
color-eyre = "*"
dirs = "*"
directories = "*"
jiff = "*"
rusqlite = "*"
ratatui = "*"
crossterm = "*"
tui-big-text = "*"
device_query = "*"
