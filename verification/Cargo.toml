[package]
name = "libmtg_doomsday"
version = "0.1.0"
edition = "2021"
publish = false

[dependencies]
rand = { version = "0.8", features = ["small_rng"] }
serde = { version = "1", features = ["derive"] }
clap = { version = "4", features = ["derive"] }
textplots = "0.8"
