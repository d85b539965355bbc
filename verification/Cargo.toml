[package]
name = "solver_bridge"
version = "0.1.0"
edition = "2021"
publish = false

[dependencies]
chalk-ir = "0.90"
chalk-solve = { version = "0.90", default-features = false }
anyhow = "1.0"
xshell = "0.1"
