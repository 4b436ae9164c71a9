[package]
name = "instance_agent"
version = "0.1.0"
edition = "2021"
publish = false

[dependencies]
jni = "0.21"
jni-sys = "0.3"
