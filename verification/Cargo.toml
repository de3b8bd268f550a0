[package]
name = "task_txt"
version = "0.1.0"
edition = "2021"
publish = false

[dependencies]
tui = "0.19"
