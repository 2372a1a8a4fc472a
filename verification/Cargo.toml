[package]
name = "geojson_vt"
version = "0.1.0"
edition = "2021"
publish = false

[dependencies]
geojson = "*"
serde_json = "*"
euclid = "*"
