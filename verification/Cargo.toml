[package]
name = "muskitty-layout"
version = "0.1.0"
edition = "2021"
publish = false

[dependencies]
taffy = "=0.12.2"
cosmic-text = "=0.12.1"
muskitty-cascade = "=0.1.1"
muskitty-css = "=0.6.0"
muskitty-dom = "=0.2.1"

[dev-dependencies]
muskitty-cssom = "=0.1.1"
muskitty-html5-parser = "=0.2.1"
