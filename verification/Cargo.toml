[package]
name = "opennic_search"
version = "0.1.0"
edition = "2021"
publish = false

[dependencies]
url = "2"
rusqlite = { version = "0.32", features = ["bundled"] }
actix-web = { version = "4", default-features = false, features = ["macros"] }
actix-files = "0.6"
tera = { version = "1", default-features = false }
serde = { version = "1", features = ["derive"] }
serde_json = "1"
once_cell = "1"
pyo3 = "0.22"
