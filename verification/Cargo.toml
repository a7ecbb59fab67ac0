[package]
name = "nixbox"
version = "0.1.0"
edition = "2021"
publish = false

[dependencies]
clap = { version = "4", features = ["derive"] }
directories = "*"
libc = "0.2"
nix = { version = "0.29", features = ["fs", "hostname", "mount", "process", "sched", "signal", "user"] }
ron = "*"
serde = { version = "1", features = ["derive"] }
