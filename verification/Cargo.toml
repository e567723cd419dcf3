[package]
name = "pgdog"
version = "0.1.0"
edition = "2021"
publish = false

[dependencies]
pg_query = "*"
