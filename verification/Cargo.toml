[package]
name = "gh_workflow"
version = "0.1.0"
edition = "2021"
publish = false

[dependencies]
indexmap = "2"
serde_json = { version = "1", features = ["preserve_order"] }
serde_yaml = "0.9"
built = "0.7"
