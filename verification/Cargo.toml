[package]
name = "version_tray"
version = "0.1.0"
edition = "2021"
publish = false
