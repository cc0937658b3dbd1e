[package]
name = "panamint"
version = "0.1.0"
edition = "2021"
publish = false

[dependencies]
pest = "2"
pest_derive = "2"
geo-types = "0.7"
