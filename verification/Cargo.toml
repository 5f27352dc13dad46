[package]
name = "solid_kmers"
version = "0.1.0"
edition = "2021"
publish = false

[dependencies]
rustc-hash = "2"
bio = "*"
clap = { version = "4", features = ["derive"] }
flate2 = "1"
futures = "0.3"
tokio = { version = "1", features = ["macros", "rt-multi-thread", "sync"] }
warp = { version = "0.3", default-features = false, features = ["websocket"] }
