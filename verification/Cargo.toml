[package]
name = "bee"
version = "0.1.0"
edition = "2021"
publish = false

[dependencies]
rusqlite = { version = "=0.40.2", features = ["bundled", "functions", "vtab", "column_decltype"] }
parking_lot = "=0.12.5"
num_cpus = "=1.17.0"
ssh = "=0.1.4"

[dev-dependencies]
