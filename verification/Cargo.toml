[package]
name = "zj_which_key"
version = "0.1.0"
edition = "2021"
publish = false

[dependencies]
ansi_term = "=0.12.1"
zellij-tile = "=0.43.1"
zellij-utils = "=0.43.1"
