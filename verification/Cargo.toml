[package]
name = "sitegen"
version = "0.1.0"
edition = "2021"
publish = false

[dependencies]
arborium = { version = "=2.18.2", features = ["lang-rust"] }
chrono = "=0.4.45"
clap = { version = "=4.6.7", features = ["derive"] }
flate2 = "=1.1.10"
image = "=0.25.10"
mime_guess = "=2.0.5"
minijinja = "=2.24.0"
pulldown-cmark = "=0.13.4"
pulldown-latex = "=0.8.0"
serde = { version = "=1.0.229", features = ["derive"] }
simple-server = "=0.4.0"
svgcleaner = "=0.9.5"
svgdom = "=0.10.5"
url = "=2.5.8"
urlencoding = "=2.1.3"
walkdir = "=2.5.0"
