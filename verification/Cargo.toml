[package]
name = "isar_update"
version = "0.1.0"
edition = "2021"
publish = false
