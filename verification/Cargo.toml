[package]
name = "httpfs"
version = "0.1.0"
edition = "2021"
publish = false

[dependencies]
url = "=2.5.8"
ureq = "=2.12.1"
exact-reader = "=0.1.5"
fuser = { version = "=0.14.0", default-features = false }
libc = "=0.2.190"
argh = "=0.1.19"
ctrlc = "=3.5.2"
rayon = "=1.12.0"
