[package]
name = "conllx-view"
version = "0.1.0"
edition = "2021"
publish = false

[dependencies]
conllx = "*"
itertools = "*"
getopts = "*"
stdinout = "*"
error-chain = "*"
failure = "*"
gtk = "0.4"
gio = "0.4"
glib = "0.5"
cairo-rs = "0.4"
rsvg = "0.4"
