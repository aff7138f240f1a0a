[package]
name = "flow_layout"
version = "0.1.0"
edition = "2021"
publish = false

[dependencies]
app_units = "0.7.8"
euclid = "0.22.14"
webrender_api = "0.70.0"
