[package]
name = "uiua"
version = "0.1.0"
edition = "2021"
publish = false

[dependencies]
base64 = "=0.21.7"
urlencoding = "=2.1.3"
leptos = { version = "=0.5.7", features = ["csr"] }
leptos_meta = { version = "=0.5.7", features = ["csr"] }
leptos_router = { version = "=0.5.7", features = ["csr"] }
wasm-bindgen = "=0.2.129"
web-sys = { version = "=0.3.106", features = ["HtmlAudioElement"] }
console_error_panic_hook = "=0.1.7"
tracing = "=0.1.44"
