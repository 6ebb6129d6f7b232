[package]
name = "pydist"
version = "0.1.0"
edition = "2021"
publish = false

[dependencies]
anyhow = "1"
fs_extra = "1.2"
reqwest = "0.11"
structopt = "0.3"
tokio = { version = "1", features = ["macros", "process", "rt-multi-thread"] }
zip = "0.5"
