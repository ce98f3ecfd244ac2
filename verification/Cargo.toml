[package]
name = "govscout"
version = "0.1.0"
edition = "2021"
publish = false

[dependencies]
url = "=2.5.8"
sha2 = "=0.11.0"
md5 = "=0.8.1"
hex = "=0.4.3"
base64 = "=0.23.1"
serde = { version = "*", features = ["derive"] }
serde_json = "*"
log = "*"
env_logger = "*"
uuid = { version = "*", features = ["v7"] }
bytes = "*"
http = "*"
reqwest = { version = "*", default-features = false, features = ["cookies", "gzip", "brotli", "deflate", "form"] }
tokio = { version = "*", features = ["macros", "rt"] }
futures = "*"
lambda_runtime = "*"
aws-config = "*"
aws-sdk-s3 = "*"
aws-sdk-dynamodb = "*"
aws-sdk-sqs = "*"
aws-sdk-ssm = "*"
aws_lambda_events = { version = "*", default-features = false, features = ["sqs"] }
aws-smithy-runtime-api = "*"
html5ever = "=0.39.0"
markup5ever_rcdom = "*"
