[package]
name = "awslogs"
version = "0.1.0"
edition = "2021"
publish = false

[dependencies]
anyhow = "1"
async-trait = "0.1"
aws-config = "1"
aws-credential-types = "1"
aws-sdk-cloudwatchlogs = "1"
aws-sdk-kinesis = "1"
aws-sdk-sts = "1"
chrono = "0.4"
clap = { version = "4", features = ["derive", "env"] }
jmespath = "*"
ratatui = "*"
regex = "1"
serde_json = "1"
supports-color = "*"
thiserror = "*"
tokio = { version = "1", features = ["full"] }
