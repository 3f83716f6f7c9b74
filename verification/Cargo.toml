[package]
name = "task_tree"
version = "0.1.0"
edition = "2021"
publish = false

[dependencies]
rand = "0.8"
rand_chacha = "0.3"
ring = "0.17"
threadpool = "1"
num_cpus = "1"
tokio = { version = "1", features = ["rt-multi-thread", "macros"] }
