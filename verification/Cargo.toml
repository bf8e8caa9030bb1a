[package]
name = "shape_schema"
version = "0.1.0"
edition = "2021"
publish = false

[dependencies]
facet = "*"
serde = { version = "*", features = ["derive"] }
