[package]
name = "tiberius_sqlserver"
version = "0.1.0"
edition = "2021"
publish = false

[dependencies]
tiberius = { version = "0.12", default-features = false, features = ["tds73", "sql-browser-async-std"] }
async-std = "1"
tokio = { version = "1", default-features = false, features = ["rt", "rt-multi-thread"] }
futures-util = "0.3"
anyhow = "1"
colored = "2"
