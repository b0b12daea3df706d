[package]
name = "shawl"
version = "1.0.0"
edition = "2021"
publish = false

[dependencies]
log = "*"
flexi_logger = "*"
ctrlc = "*"
windows = "*"
windows-service = "*"
