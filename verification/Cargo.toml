[package]
name = "lambda"
version = "0.1.0"
edition = "2021"
publish = false

[dependencies]
bytes = "=0.4.12"
envy = "=0.4.2"
futures = "=0.3.34"
http = "=0.1.21"
proc-macro2 = { version = "=0.4.30", default-features = false }
quote = { version = "=0.6.13", default-features = false }
serde = { version = "=1.0.229", features = ["derive"] }
serde_json = "=1.0.154"
syn = { version = "=0.15.44", default-features = false, features = ["clone-impls", "derive", "full", "parsing", "printing"] }
