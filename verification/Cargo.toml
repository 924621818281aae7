[package]
name = "hermit"
version = "0.1.0"
edition = "2021"
publish = false

[dependencies]
colored = "*"
git2 = "*"
os_pipe = "*"
os-release = "*"
rustyline = "*"
term_size = "*"
