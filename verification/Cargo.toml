[package]
name = "docker_executor"
version = "0.1.0"
edition = "2021"
publish = false

[dependencies]
bollard = "=0.21.1"
dirs = "=7.0.0"
flate2 = "=1.1.10"
fs-err = "=3.3.2"
futures-util = "=0.3.34"
http = "=1.5.0"
http-body-util = "=0.1.5"
ignore = "=0.4.33"
prost = "=0.14.4"
tempfile = "=3.27.0"
tokio = { version = "=1.53.2", features = ["full"] }
tokio-stream = "=0.1.19"
tokio-tar = "=0.3.1"
tokio-util = "=0.7.19"
tonic = "=0.14.6"
tonic-prost = "*"
uuid = { version = "=1.27.0", features = ["v4"] }
walkdir = "=2.5.0"
