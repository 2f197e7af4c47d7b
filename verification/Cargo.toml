[package]
name = "contained"
version = "0.1.0"
edition = "2021"
publish = false

[dependencies]
caps = "0.5"
libc = "0.2"
libseccomp = "0.3"
nix = { version = "0.29", features = ["fs", "hostname", "mount", "process", "sched", "signal", "time", "user"] }
