[package]
name = "ringrtc_devices"
version = "0.1.0"
edition = "2021"
publish = false

[dependencies]
anyhow = "=1.0.104"
cubeb = { version = "=0.36.0", features = ["gecko-in-tree"] }
cubeb-core = { version = "=0.36.0", features = ["gecko-in-tree"] }
libc = "=0.2.191"
log = "=0.4.35"
regex-automata = { version = "=0.4.18", features = ["dfa-build", "dfa-search", "syntax", "unicode"] }
