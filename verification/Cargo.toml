[package]
name = "kprobes"
version = "0.1.0"
edition = "2021"
publish = false

[dependencies]
riscv-decode = "*"
xmas-elf = "*"
dyn-fmt = "*"
