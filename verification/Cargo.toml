[package]
name = "s3_event_bridge"
version = "0.1.0"
edition = "2021"
publish = false

[dependencies]
anyhow = "1"
aws-config = "*"
aws_lambda_events = "*"
aws-sdk-s3 = "*"
aws-sdk-sqs = "*"
aws-smithy-types-convert = { version = "*", features = ["convert-chrono"] }
base64ct = { version = "1", features = ["alloc"] }
chrono = "*"
envy = "*"
jaq-core = "1"
jaq-interpret = "1"
jaq-parse = "1"
jaq-std = "1"
lambda_runtime = "*"
once_cell = "1"
serde = { version = "1", features = ["derive"] }
serde_json = "1"
sha1 = "0.10"
tempfile = "3"
tokio = { version = "1", features = ["macros", "rt-multi-thread", "process", "fs", "io-util", "time", "sync", "signal"] }
tracing = "*"
tracing-subscriber = "*"
