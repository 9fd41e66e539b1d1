[package]
name = "next_error_code"
version = "0.1.0"
edition = "2021"
publish = false

[dependencies]
swc_core = { version = "*", features = ["ecma_ast", "ecma_visit"] }
