[package]
name = "signal_frame"
version = "0.4.0"
edition = "2021"
publish = false

[dependencies]
rkyv = "=0.8.18"
thiserror = "=2.0.21"
paste = "=1.0.15"
