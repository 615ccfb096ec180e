[package]
name = "sandbox_host"
version = "0.1.0"
edition = "2021"
publish = false

[dependencies]
wasmer = { version = "=6.1.0", default-features = false, features = ["sys", "compiler"] }
wasmer-compiler-singlepass = "=6.1.0"
wasmer-wasix = { version = "=0.601.0", default-features = false, features = ["sys-minimal"] }
tokio = { version = "=1.53.2", default-features = false, features = ["rt-multi-thread"] }

[dev-dependencies]
wat = "*"
