[package]
name = "atomic_broadcast"
version = "0.1.0"
edition = "2021"
publish = false

[dependencies]
hashbrown = "=0.9.1"
rand = "=0.7.3"
hdrhistogram = "=7.6.0"
hocon = "=0.9.0"
chrono = "=0.4.45"
itertools = "0.10"
