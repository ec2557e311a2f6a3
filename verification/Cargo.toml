[package]
name = "riak"
version = "0.3.0"
edition = "2021"
publish = false

[dependencies]
log = "0.4"
protobuf = "2"
