[package]
name = "proving_node"
version = "0.1.0"
edition = "2021"
publish = false

[dependencies]
maidsafe_utilities = "*"
serde = { version = "1", features = ["derive"] }
