[package]
name = "incremental_code"
version = "0.1.0"
edition = "2021"
publish = false

[dependencies]
serde = { version = "=1.0.229", features = ["derive"] }
serde_json = "=1.0.154"
spfunc = "=0.1.3"
linear-map = "=1.2.0"
smallvec = "=1.16.4"
stacker = "0.1"
directories = "=6.0.0"
