[package]
name = "text_edit"
version = "0.1.0"
edition = "2021"
publish = false

[dependencies]
app_units = "=0.7.8"
clap = "=2.34.0"
gleam = "=0.15.1"
glutin = "=0.21.2"
rusttype = "=0.2.4"
serde_json = "=1.0.154"
webrender = "=0.70.0"
