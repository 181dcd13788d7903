[package]
name = "cauliflambda"
version = "0.1.0"
edition = "2021"
publish = false

[dependencies]
unicode-xid = "*"
rustyline = { version = "*", features = ["derive"] }
codespan-reporting = "*"
rand = "*"
