[package]
name = "ecpri_pcap_parser"
version = "0.1.0"
edition = "2021"
publish = false

[dependencies]
nom = { version = "5.1", default-features = false, features = ["std"] }
chrono = { version = "0.4", default-features = false, features = ["std"] }
circular = "0.3"
hex-slice = "0.1"
