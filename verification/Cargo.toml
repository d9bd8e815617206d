[package]
name = "mkutils"
version = "0.1.0"
edition = "2021"
publish = false

[dependencies]
arrayvec = "0.7"
heck = "0.5"
unicode-segmentation = "1"
crossterm = "*"
syn = { version = "2", features = ["full", "extra-traits"] }
quote = "1"
proc-macro2 = "1"
serde = { version = "1", features = ["derive"] }
tokio = { version = "1", features = ["sync", "process", "rt-multi-thread", "macros", "io-util", "fs", "time"] }
anyhow = "1"
either = "1"
ropey = "1"
