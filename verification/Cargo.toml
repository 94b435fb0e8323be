[package]
name = "httptool"
version = "0.1.0"
edition = "2021"
publish = false

[dependencies]
encoding = "0.2"
http = "1"
http-types = { version = "2", default-features = false }
serde_json = "1"
url = "2"
uuid = { version = "1", features = ["v7"] }
serde = { version = "1", features = ["derive"] }
time = { version = "0.3", features = ["local-offset", "serde", "formatting", "macros"] }
reqwest = { version = "0.12", default-features = false }
wasm-bindgen = "0.2"
wasm-bindgen-futures = "0.4"
js-sys = "0.3"
serde-wasm-bindgen = "0.6"
web-extensions-sys = "*"
web-extensions = "*"
tracing = "0.1"
tracing-subscriber = { version = "0.3", features = ["time"] }
tracing-web = "0.1"
console_error_panic_hook = "0.1"
