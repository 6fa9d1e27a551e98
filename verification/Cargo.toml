[package]
name = "utmp_classic"
version = "0.1.0"
edition = "2021"
publish = false

[dependencies]
time = "0.3"
thiserror = "1"
cfg-if = "1"
