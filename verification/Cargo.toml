[package]
name = "antielectrophile"
version = "0.1.0"
edition = "2021"
publish = false

[dependencies]
etherparse = "*"
pcap = "*"
crossterm = "*"
termion = "*"
figlet-rs = "*"
local-ip-address = "*"
