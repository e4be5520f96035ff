[package]
name = "warehouse_nav"
version = "0.1.0"
edition = "2021"
publish = false

[dependencies]
roxmltree = "*"
svgtypes = "*"
svg-path-parser = "*"
clap = { version = "*", features = ["derive"] }
serde = { version = "*", features = ["derive"] }
serde_json = "*"
