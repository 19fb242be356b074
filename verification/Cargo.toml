[package]
name = "collectd_plugin"
version = "0.1.0"
edition = "2021"
publish = false

[dependencies]
memchr = "=2.8.3"
log = { version = "=0.4.34", features = ["std"] }
chrono = "=0.4.45"
libc = "=0.2.190"
num_cpus = "=1.17.0"
serde = "=1.0.229"
