[package]
name = "mesh_mediator"
version = "0.1.0"
edition = "2021"
publish = false

[dependencies]
anyhow = "1"
bytes = "1"
tokio = { version = "1", features = ["macros", "net", "rt", "sync", "time"] }
