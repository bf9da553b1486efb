[package]
name = "pcb2ctb"
version = "0.1.0"
edition = "2021"
publish = false

[dependencies]
byteorder = "=1.5.0"
clap = { version = "=3.2.25", features = ["derive"] }
png = "=0.17.16"
