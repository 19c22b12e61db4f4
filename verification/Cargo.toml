[package]
name = "php_dev_server"
version = "0.1.0"
edition = "2021"
publish = false

[dependencies]
clap = "2"
glob = "0.3"
pretty_env_logger = "0.4"
log = "0.4"
