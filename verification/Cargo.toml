[package]
name = "numenera_helper"
version = "0.1.0"
edition = "2021"
publish = false

[dependencies]
clap = "2"
rand = "0.8"
rusqlite = "0.24"
