[package]
name = "display_switch"
version = "0.1.0"
edition = "2021"
publish = false
