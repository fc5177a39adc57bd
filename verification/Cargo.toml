[package]
name = "kismet"
version = "0.1.0"
edition = "2021"
publish = false

[dependencies]
indexmap = "1"
syn = { version = "1", features = ["full", "parsing"] }
clap = { version = "3.1", features = ["derive"] }
rustyline = "9"
