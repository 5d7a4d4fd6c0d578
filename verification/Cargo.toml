[package]
name = "warc_parser"
version = "0.1.0"
edition = "2021"
publish = false

[dependencies]
flate2 = "=1.1.10"
warc = "=0.4.0"
duckdb = { version = "=1.20000.0", default-features = false, features = ["vtab-loadable", "vscalar"] }
duckdb-loadable-macros = "=1.20000.0"
libduckdb-sys = { version = "=1.20000.0", default-features = false, features = ["loadable-extension"] }
