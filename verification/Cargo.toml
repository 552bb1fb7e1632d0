[package]
name = "bikeshed"
version = "0.1.0"
edition = "2021"
publish = false

[dependencies]
chrono = "0.4"
titlecase = "*"
kuchiki = "0.8"
markup5ever = "0.10"
clap = "2"
