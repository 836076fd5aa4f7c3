[package]
name = "aerogel"
version = "0.1.0"
edition = "2021"
publish = false

[dependencies]
crossbeam-deque = "0.8"
crossbeam-utils = "0.8"
parking_lot = "0.12"
polling = "3"
num_cpus = "1"
lazy_static = "1"
ctor = "0.2"
scoped-tls = "1"
futures = "0.3"
