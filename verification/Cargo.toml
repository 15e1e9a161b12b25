[package]
name = "project_manager"
version = "0.1.0"
edition = "2021"
publish = false

[dependencies]
serde_json = "1"
glob = "0.3"
fs_extra = "1"
chrono = "0.4"
whoami = "1"
