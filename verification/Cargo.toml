[package]
name = "bowtie"
version = "0.1.0"
edition = "2021"
publish = false

[dependencies]
base64 = "0.10"
whirlpool = "0.8"
rocket = "0.5"
tera = "1"
rsass = "*"
walkdir = "2"
serde = { version = "1", features = ["derive"] }
chrono = "0.4"
diesel = { version = "1.4", features = ["postgres", "chrono"] }
r2d2 = "0.8"
r2d2-diesel = "1"
medallion = "2"
dotenv = "0.15"
log = "0.4"
minify = "*"
