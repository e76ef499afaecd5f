[package]
name = "postal_import"
version = "0.1.0"
edition = "2021"
publish = false

[dependencies]
chrono = "=0.4.45"
dotenv = "=0.15.0"
encoding_rs = "=0.8.42"
kanaria = "=0.2.0"
mysql = { version = "=28.0.3", default-features = false, features = ["minimal-rust"] }
