[package]
name = "seq_expand"
version = "0.1.0"
edition = "2021"
publish = false

[dependencies]
proc-macro2 = "=1.0.107"
syn = "=2.0.119"
unicode-ident = "=1.0.27"
