[package]
name = "textkit"
version = "0.1.0"
edition = "2021"
publish = false

[dependencies]
ansi_term = "0.12"
chrono = "0.4"
clap = "2"
csv = "1"
itertools = "0.10"
num-traits = "0.2"
rand = "0.8"
regex = "1"
tabular = "0.2"
users = "0.11"
walkdir = "2"
