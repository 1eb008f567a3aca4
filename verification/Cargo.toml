[package]
name = "pdl"
version = "0.1.0"
edition = "2021"
publish = false

[dependencies]
csv = "=1.4.0"
chrono = { version = "=0.4.45", default-features = false, features = ["alloc", "std"] }
arrow-array = "=60.1.0"
arrow-ipc = { version = "=60.1.0", default-features = false }
arrow-schema = "=60.1.0"
parquet = { version = "=60.1.0", default-features = false, features = ["arrow"] }
bytes = "=1.12.1"
serde = { version = "=1.0.229", features = ["derive"] }
serde_json = { version = "=1.0.154", features = ["preserve_order"] }
clap = { version = "=4.6.7", features = ["derive"] }
thiserror = "=2.0.21"
geojson = "=1.0.0"
geo-types = "=0.7.20"
shapefile = { version = "=0.9.0", features = ["geo-types"] }
indexmap = "=2.14.2"
