[package]
name = "twilight_commands"
version = "0.1.0"
edition = "2021"
publish = false

[dependencies]
anyhow = "=1.0.104"
thiserror = "=2.0.21"
twilight-model = "=0.17.1"
twilight-util = { version = "=0.17.0", features = ["builder"] }
darling = "=0.21.3"
syn = { version = "=2.0.119", features = ["full"] }
quote = "=1.0.47"
proc-macro2 = "=1.0.107"
