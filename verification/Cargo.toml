[package]
name = "move-mv-llvm-compiler"
version = "0.1.0"
edition = "2021"
publish = false

[dependencies]
anyhow = "1"
libc = "0.2"
regex = "1"
toml = "0.5"
llvm-sys = "*"
move-core-types = "0.0.3"
