[package]
name = "fphost"
version = "0.1.0"
edition = "2021"
publish = false

[dependencies]
alloy-consensus = "=2.5.0"
alloy-primitives = "=1.7.3"
alloy-rlp = "=0.3.16"
alloy-eips = "=2.5.0"
op-alloy-consensus = "=2.0.0"
sha2 = "=0.11.0"
command-fds = "*"
