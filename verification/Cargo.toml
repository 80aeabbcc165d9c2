[package]
name = "ethercat_mailbox"
version = "0.1.0"
edition = "2021"
publish = false

[dependencies]
heapless = "=0.8.0"

[dev-dependencies]
arbitrary = "=1.5.0"
heckcheck = "=2.0.1"
