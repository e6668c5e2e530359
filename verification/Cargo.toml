[package]
name = "cloudwatch_metrics_agent"
version = "0.1.0"
edition = "2021"
publish = false

[dependencies]
async-trait = "=0.1.92"
aws-config = "=1.13.0"
aws-sdk-cloudwatch = "=1.138.0"
chrono = "=0.4.45"
clap = { version = "=4.6.7", features = ["derive"] }
env_logger = "=0.11.11"
log = "=0.4.34"
sysinfo = "=0.29.11"
tokio = { version = "=1.54.1", features = ["full"] }

[dev-dependencies]
rstats = "=2.1.15"
