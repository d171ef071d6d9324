[package]
name = "hibana_mgmt"
version = "0.1.0"
edition = "2021"
publish = false

[dependencies]
hibana = "=0.8.0"
