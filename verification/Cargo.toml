[package]
name = "lost_expedition"
version = "0.1.0"
edition = "2021"
publish = false

[dependencies]
spacetimedb = "=2.0.5"
