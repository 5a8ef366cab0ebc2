[package]
name = "rskr"
version = "0.1.0"
edition = "2021"
publish = false

[dependencies]
pulldown-cmark = { version = "*", default-features = false, features = ["html"] }
hyper = "0.10"
mime = "0.2"
getopts = "0.2"
log = "0.3"
env_logger = "0.4"
