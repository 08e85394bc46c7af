[package]
name = "atomicmonitor"
version = "0.1.0"
edition = "2021"
publish = false

[dependencies]
atomic = "0.4"
monitor = "0.1"
time = "0.1"
