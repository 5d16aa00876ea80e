[package]
name = "proxygen"
version = "0.1.0"
edition = "2021"
publish = false

[dependencies]
anyhow = "1"
clap = { version = "4", features = ["derive"] }
exe = "*"
proc-macro2 = "1"
quote = "1"
syn = { version = "2", features = ["full"] }
tera = { version = "1", default-features = false }

[dev-dependencies]
regex = "1"
