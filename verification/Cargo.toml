[package]
name = "do_sqlite"
version = "0.1.0"
edition = "2021"
publish = false

[dependencies]
futures-task = "*"
rusqlite = "*"
sqlite-vfs = "*"
worker = "*"
