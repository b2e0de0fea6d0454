[package]
name = "cloudflare_tfvars"
version = "0.1.0"
edition = "2021"
publish = false

[dependencies]
cloudflare = { version = "=0.14.0", default-features = false, features = ["blocking", "rustls-tls"] }
