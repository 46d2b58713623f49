[package]
name = "rust_wasm_dodrio_templating"
version = "1.0.3"
edition = "2021"
publish = false

[dependencies]
reader_for_microxml = "*"
dodrio = "0.2.0"
web-sys = { version = "0.3", features = ["Event"] }
