[package]
name = "definition_graph"
version = "0.1.0"
edition = "2021"
publish = false

[dependencies]
gumdrop = "0.8"
serde = "1"
serde_json = "1"
