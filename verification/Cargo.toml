[package]
name = "dungeon_fighter"
version = "0.1.0"
edition = "2021"
publish = false

[dependencies]
rand = "=0.8.8"
termion = "=4.0.6"
text_io = "=0.1.13"
