[package]
name = "swc_ecma_compiler"
version = "0.1.0"
edition = "2021"
publish = false

[dependencies]
itoa = "1"
indexmap = "2"
rustc-hash = "2"
serde = { version = "1", features = ["derive"] }
serde_json = "1"
swc_atoms = "*"
swc_common = "*"
swc_ecma_ast = "*"
swc_ecma_hooks = "*"
swc_ecma_visit = "*"
swc_ecma_regexp = "*"
swc_ecma_regexp_ast = "*"
swc_ecma_regexp_visit = "*"
