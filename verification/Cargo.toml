[package]
name = "mere"
version = "0.9.0"
edition = "2021"
publish = false

[dependencies]
anyhow = "1"
argh = "0.1"
env_logger = "0.11"
inotify = "0.11"
log = "0.4"
ssh2 = "0.9"
whoami = "1"
