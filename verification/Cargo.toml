[package]
name = "compio-executor"
version = "0.1.0"
edition = "2021"
publish = false

[dependencies]
crossfire = "=3.1.22"
slotmap = "=1.1.1"
thin-cell = "=0.2.1"
