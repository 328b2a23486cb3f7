[package]
name = "nand2tetris"
version = "0.1.0"
edition = "2021"
publish = false

[dependencies]
regex = "1"
clap = "2"
thiserror = "1"
futures = "0.3"
