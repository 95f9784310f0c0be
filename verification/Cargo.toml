[package]
name = "breakwater"
version = "0.1.0"
edition = "2021"
publish = false

[dependencies]
async-trait = "=0.1.92"
cedar-local-agent = "=3.0.0"
cedar-policy = { version = "=4.11.2", features = ["tpe"] }
datafusion-common = { version = "=54.1.0", default-features = false, features = ["sql"] }
smol_str = "=0.3.7"
thiserror = "=2.0.21"
tracing = "=0.1.44"
