[package]
name = "spaten"
version = "0.1.0"
edition = "2021"
publish = false

[dependencies]
wkb = "=0.7.1"
geo-types = "=0.7.20"
