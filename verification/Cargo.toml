[package]
name = "mandelcloud"
version = "0.1.0"
edition = "2021"
publish = false

[dependencies]
aws-config = { version = "=1.8.18", features = ["behavior-version-latest"] }
aws-sdk-s3 = "=1.152.0"
aws-smithy-runtime-api = "=1.19.1"
aws_lambda_events = "=1.2.1"
hex = "=0.4.3"
http = "=1.5.0"
js-sys = "=0.3.106"
lambda_runtime = "=1.5.0"
log = "=0.4.34"
rug = "=1.30.0"
serde = { version = "=1.0.229", features = ["derive"] }
serde_json = "=1.0.154"
sha3 = "=0.10.9"
tokio = { version = "=1.54.1", features = ["macros", "rt-multi-thread"] }
wasm-bindgen = "=0.2.129"
web-sys = { version = "=0.3.106", features = ["CanvasRenderingContext2d", "Document", "Element", "HtmlCanvasElement", "ImageData", "NodeList", "Window"] }
web-time = "=1.1.0"
