[package]
name = "fuzzcore"
version = "0.1.0"
edition = "2021"
publish = false

[dependencies]
libafl_targets = { version = "=0.16.1", features = ["libfuzzer"] }
