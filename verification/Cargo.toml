[package]
name = "audio_cable"
version = "0.1.0"
edition = "2021"
publish = false

[dependencies]
claxon = "0.4"
cpal = "0.13"
crossbeam-channel = "0.5"
