[package]
name = "hypercircuit"
version = "0.1.0"
edition = "2021"
publish = false

[dependencies]
csgrs = "*"
hypercurve = "*"
hyperlattice = "*"
hyperpath = "*"
hyperreal = "*"
hypersolve = "*"
serde = { version = "1", features = ["derive"] }
serde_json = "1"
sha2 = "*"
