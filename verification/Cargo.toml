[package]
name = "resolver_pool"
version = "0.1.0"
edition = "2021"
publish = false

[dependencies]
crossbeam = "=0.8.5"
log = "=0.4.34"
rayon = "=1.12.0"
trust-dns-client = "=0.23.2"
