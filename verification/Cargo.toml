[package]
name = "dns_mesh_check"
version = "0.1.0"
edition = "2021"
publish = false

[dependencies]
dotenv = "=0.15.0"
futures = "=0.1.31"
hubcaps = "=0.5.0"
tokio = "=0.1.22"
trust-dns-client = "=0.23.2"
