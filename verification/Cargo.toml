[package]
name = "anchor_sentry"
version = "0.1.0"
edition = "2021"
publish = false

[dependencies]
syn = { version = "*", features = ["full", "visit"] }
quote = "*"
proc-macro2 = { version = "*", features = ["span-locations"] }
clap = { version = "*", features = ["derive"] }
chrono = "*"
