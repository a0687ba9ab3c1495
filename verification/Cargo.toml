[package]
name = "https_sans_io"
version = "0.1.0"
edition = "2021"
publish = false

[dependencies]
anyhow = "1"
io-uring = "*"
libc = "0.2"
rustls = { version = "0.23", default-features = false, features = ["std", "ring"] }
webpki-roots = "*"

[dev-dependencies]
rcgen = { version = "0.13", default-features = false, features = ["crypto", "pem", "ring"] }
