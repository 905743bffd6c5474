[package]
name = "clean-dns"
version = "0.1.0"
edition = "2021"
publish = false

[dependencies]
anyhow = "=1.0.104"
aya = { version = "=0.11.0", features = ["async_tokio"] }
aya-ebpf = "=0.1.1"
bytes = "=1.12.1"
structopt = "=0.3.26"
tokio = { version = "=1.54.1", features = ["macros", "rt", "rt-multi-thread", "net", "signal"] }
