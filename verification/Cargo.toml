[package]
name = "cobalt_codegen"
version = "0.1.0"
edition = "2021"
publish = false

[dependencies]
clap = "*"
colored = "*"
cranelift = "=0.135.5"
cranelift-module = "=0.135.5"
cranelift-native = "=0.135.5"
miette = "*"
