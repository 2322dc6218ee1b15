[package]
name = "micromouse_logic"
version = "0.1.0"
edition = "2021"
publish = false

[dependencies]
heapless = { version = "0.5", features = ["serde"] }
typenum = "1"
libm = "0.1"
serde = { version = "1", default-features = false, features = ["derive"] }
