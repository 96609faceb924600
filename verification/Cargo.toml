[package]
name = "woff2"
version = "0.1.0"
edition = "2021"
publish = false

[dependencies]
bitvec = "1"
brotli = "*"
bytes = "1"
four-cc = "*"
safer-bytes = "*"
thiserror = "1"

[dev-dependencies]
ttf-parser = "*"
