[package]
name = "async_log"
version = "0.1.0"
edition = "2021"
publish = false

[dependencies]
log = { version = "=0.4.34", features = ["std", "kv"] }
backtrace = "=0.3.76"
syn = { version = "2", features = ["full"] }
quote = "1"
proc-macro2 = "1"
