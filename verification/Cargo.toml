[package]
name = "a2ltool"
version = "0.1.0"
edition = "2021"
publish = false

[dependencies]
memchr = "=2.8.3"
glob = "=0.3.4"
clap = "=4.6.7"
regex = "=1.13.1"
cpp_demangle = "=0.4.5"
gimli = "*"
object = "*"
