[package]
name = "hir_core"
version = "0.1.0"
edition = "2021"
publish = false

[dependencies]
arrayvec = "0.5"
either = "1"
rustc-hash = "1.1"
rustc-ap-rustc_lexer = "652.0.0"
proc-macro2 = "1"
quote = "1"
