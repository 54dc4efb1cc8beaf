[package]
name = "gsr"
version = "0.1.0"
edition = "2021"
publish = false

[dependencies]
walkdir = "2"
threadpool = "1"
structopt = "0.3"
