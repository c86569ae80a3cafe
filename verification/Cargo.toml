[package]
name = "zkvm_trace"
version = "0.1.0"
edition = "2021"

[dependencies]
num-traits = "0.2"
stwo = "*"
superconsole = "0.2"
