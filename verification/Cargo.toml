[package]
name = "invaders_2"
version = "0.1.0"
edition = "2021"
publish = false

[dependencies]
crossterm = "=0.29.0"
rand = "=0.8.8"
rusty_audio = "=1.4.1"
rusty_time = "=0.11.3"
tokio = { version = "=1.54.1", features = ["full"] }
