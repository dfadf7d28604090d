[package]
name = "order_cart"
version = "0.1.0"
edition = "2021"
publish = false

[dependencies]
wasm-bindgen = "0.2"
web-sys = { version = "0.3", features = ["Event", "EventTarget", "HtmlInputElement"] }
yew = { version = "0.23", features = ["csr"] }
yew-router = "0.20"
yewdux = "0.13"
