[package]
name = "ematch_bench"
version = "0.1.0"
edition = "2021"
publish = false

[dependencies]
csv = "1"
egg = "*"
env_logger = "*"
ordered-float = "*"
serde = { version = "1", features = ["derive"] }
structopt = "0.3"
