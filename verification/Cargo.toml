[package]
name = "velotype"
version = "0.1.0"
edition = "2021"
publish = false

[dependencies]
anyhow = "1"
futures = "0.3"
gxhash = "*"
http = "1"
parking_lot = "0.12"
pulldown-cmark = "0.13"
ringbuf = "0.4"
rubato = "*"
symphonia = "*"
url = "2"
wasapi = "*"
