[package]
name = "netracer"
version = "0.1.0"
edition = "2021"
publish = false

[dependencies]
actix-cors = "=0.7.2"
actix-files = "=0.7.0"
actix-web = { version = "=4.15.0", features = ["openssl"] }
actix-web-httpauth = "=0.8.3"
chrono = "=0.4.45"
clap = { version = "=4.6.7", features = ["derive"] }
ctrlc = "=3.5.2"
htpasswd-verify = "=0.3.0"
native_db = "=0.8.2"
native_model = "=0.4.20"
once_cell = "=1.21.4"
openssl = "=0.10.81"
pcap = "=2.5.0"
rcgen = "=0.14.10"
rust_xlsxwriter = "=0.99.1"
serde = { version = "=1.0.229", features = ["derive"] }
