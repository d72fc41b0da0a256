[package]
name = "clickhouse_fdw"
version = "0.1.0"
edition = "2021"
publish = false

[dependencies]
clickhouse-rs = "=0.1.21"
futures = "0.1"
