[package]
name = "midi_piano_roll"
version = "0.1.0"
edition = "2021"
publish = false

[dependencies]
macroquad = "0.4"
midir = "0.10"
