[package]
name = "hyper_ontology"
version = "0.1.0"
edition = "2021"
publish = false

[dependencies]
curie = "=0.1.4"
horned-owl = { version = "1", default-features = false }
tera = "1"
serde = { version = "1", features = ["derive"] }
clap = { version = "4", features = ["cargo"] }
figment = { version = "0.10", features = ["toml", "env"] }
dotenvy = "0.15"
eyre = "0.6"
