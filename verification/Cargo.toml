[package]
name = "headlines"
version = "0.1.0"
edition = "2021"
publish = false

[dependencies]
eframe = "0.15"
newsapi = "*"
tracing = "0.1"
tracing-subscriber = "0.3"
