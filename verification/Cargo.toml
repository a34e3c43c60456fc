[package]
name = "roper_redux"
version = "0.1.0"
edition = "2021"
publish = false

[dependencies]
goblin = "=0.10.7"
