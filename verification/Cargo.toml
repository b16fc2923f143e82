[package]
name = "game_of_life"
version = "0.1.0"
edition = "2021"
publish = false

[dependencies]
rayon = "=1.12.0"
rand = "=0.8.8"
clap = "=2.34.0"
indicatif = "=0.16.2"
console = "=0.16.6"
raqote = { version = "=0.8.5", default-features = false, features = ["png"] }
