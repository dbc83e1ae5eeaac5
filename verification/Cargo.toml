[package]
name = "dsvcut"
version = "0.1.0"
edition = "2021"
publish = false

[dependencies]
atty = "0.2"
structopt = "0.3"
