[package]
name = "poll_engine"
version = "0.1.0"
edition = "2021"
publish = false

[dependencies]
arch_program = "*"
borsh = "*"
