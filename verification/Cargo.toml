[package]
name = "address_autocomplete"
version = "0.1.0"
edition = "2021"
publish = false

[dependencies]
actix-web = { version = "4", default-features = false, features = ["macros"] }
csv = "1"
flate2 = "1"
serde = { version = "1", features = ["derive"] }
serde_json = "1"
