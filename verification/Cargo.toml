[package]
name = "pdfvectorizer"
version = "0.1.0"
edition = "2021"
publish = false

[dependencies]
clap = { version = "4", features = ["derive"] }
image = { version = "0.25", default-features = false, features = ["png", "jpeg"] }
ndarray = "*"
ort = { version = "=2.0.0-rc.15", default-features = false, features = ["ndarray", "load-dynamic"] }
pdf = "0.9"
pdfium-render = "0.8"
png = "0.17"
pyo3 = "0.23"
reqwest = { version = "0.12", default-features = false, features = ["blocking", "gzip", "brotli", "rustls-tls"] }
thiserror = "*"
visioncortex = "0.8"
vtracer = "*"
