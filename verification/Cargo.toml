[package]
name = "sort_lowering"
version = "0.1.0"
edition = "2021"
publish = false

[dependencies]
turso_sqlite3_parser = "*"
