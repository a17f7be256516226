[package]
name = "war_sheet"
version = "0.1.0"
edition = "2021"
publish = false

[dependencies]
serde_json = "1"
simple_excel_writer = "*"
glob = "0.3"
log = "0.4"
env_logger = "*"
