[package]
name = "aws_ecs_exporter"
version = "0.1.0"
edition = "2021"
publish = false

[dependencies]
async-trait = "0.1"
aws-config = "0.8"
aws-sdk-ecs = "0.8"
aws-types = "0.8"
clap = { version = "3", features = ["cargo", "env", "regex"] }
color-eyre = "0.6"
prometheus = "0.13"
regex = "1"
tokio = { version = "1", features = ["macros", "rt-multi-thread"] }
tracing = "0.1"
tracing-subscriber = "0.3"
warp = { version = "0.3", features = ["tls"] }
