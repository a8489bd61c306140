[package]
name = "duke_portal"
version = "0.1.0"
edition = "2021"
publish = false

[dependencies]
sled = "0.34"
bincode = "1.3"
uuid = { version = "0.8", features = ["v4", "serde"] }
rand = "0.8"
sanitize-filename = "0.3"
serde = { version = "1", features = ["derive"] }
serde_json = "1"
actix-web = { version = "3", features = ["openssl"] }
actix-files = "0.5"
actix-multipart = "0.3"
actix-web-middleware-redirect-https = "3"
async-std = "1"
chrono = "0.4"
futures = "0.3"
handlebars = "3"
log = "0.4"
simple-logging = "2"
sys-info = "0.9"
openssl = "0.10"
maplit = "1"
