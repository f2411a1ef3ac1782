[package]
name = "iceccd"
version = "0.1.0"
edition = "2021"
publish = false

[dependencies]
byteorder = "=1.5.0"
bytes = "=1.12.1"
minilzo = "=0.2.0"
get_if_addrs = "=0.5.3"
resolve = "=0.2.0"
clap = "=2.34.0"
crossbeam = "=0.8.5"
local-socket = "*"
