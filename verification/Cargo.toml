[package]
name = "asset_mirror"
version = "0.1.0"
edition = "2021"
publish = false

[dependencies]
lightningcss = "=1.0.0-alpha.72"
minify-html = "=0.18.1"
oxc_allocator = "=0.95.0"
oxc_codegen = "=0.95.0"
oxc_minifier = "=0.95.0"
oxc_parser = "=0.95.0"
oxc_span = "=0.95.0"
