[package]
name = "halo_gateway"
version = "0.1.0"
edition = "2021"
publish = false

[dependencies]
querystring = "=1.1.0"
reqwest = { version = "=0.13.5", default-features = false, features = ["json", "form"] }
serde = { version = "=1.0.229", features = ["derive"] }
serde_json = "=1.0.151"
futures = "=0.3.34"
dotenv = "=0.15.0"
