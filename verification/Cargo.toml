[package]
name = "mist"
version = "0.1.0"
edition = "2021"
publish = false

[dependencies]
chrono = "0.4"
clap = { version = "4.0", features = ["derive", "env"] }
colored = "2"
dirs = "4"
edit = "0.1"
exitcode = "1"
flate2 = "1"
lazy_static = "1"
makedeb-srcinfo = "0.8"
quit = "1"
regex = "1"
reqwest = { version = "0.11", default-features = false, features = ["blocking"] }
rust-apt = "0.5"
serde = { version = "1", features = ["derive"] }
serde_json = "1"
tempfile = "3"
users = "0.11"
which = "4"
