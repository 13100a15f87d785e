[package]
name = "bean_import"
version = "0.1.0"
edition = "2021"
publish = false

[dependencies]
anyhow = "1"
csv = "1.1"
structopt = "0.3"
thiserror = "1"
toml_edit = "0.1"
