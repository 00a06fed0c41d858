[package]
name = "moxdtrkr"
version = "0.2.0"
edition = "2021"
publish = false

[dependencies]
chrono = "0.4"
colored = "2"
clearscreen = "3"
console = "0.15"
inquire = { version = "0.7", features = ["date"] }
serde = { version = "1", features = ["derive"] }
serde_json = "1"
