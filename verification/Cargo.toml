[package]
name = "ttrpc"
version = "0.3.0"
edition = "2021"
publish = false

[dependencies]
libc = "0.2"
nix = "0.16"
protobuf = "2.14"
protobuf-codegen = "2.14"
protobuf-codegen-pure = "2.14"
