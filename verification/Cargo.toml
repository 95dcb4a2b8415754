[package]
name = "cf_cli"
version = "0.1.0"
edition = "2021"
publish = false

[dependencies]
crazyflie-lib = "*"
crazyflie-link = "*"
async_executors = { version = "*", features = ["async_std"] }
async-std = { version = "1", features = ["attributes"] }
futures = "0.3"
clap = { version = "4", features = ["derive"] }
confy = "*"
serde = { version = "1", features = ["derive"] }
