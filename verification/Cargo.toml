[package]
name = "norg_render"
version = "0.1.0"
edition = "2021"
publish = false

[dependencies]
handlebars = "*"
miette = "*"
tokio = { version = "*", features = ["fs", "macros", "rt-multi-thread"] }
tracing = "*"
