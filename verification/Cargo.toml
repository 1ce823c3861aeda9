[package]
name = "mako"
version = "0.1.0"
edition = "2021"
publish = false

[dependencies]
rayon = "1"
swc_ecma_ast = "*"
swc_ecma_visit = "*"
swc_css_ast = "*"
swc_css_visit = "*"
