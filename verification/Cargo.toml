[package]
name = "ricercar-grammar"
version = "0.1.0"
edition = "2021"
publish = false

[dependencies]
serde = { version = "=1.0.229", features = ["derive"] }
thiserror = "=2.0.21"
rand = "=0.8.8"
fugue-ppl = "=0.2.4"
fugue-evo = "=0.4.0"
