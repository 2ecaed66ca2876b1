[package]
name = "ohmywordle"
version = "0.1.0"
edition = "2021"
publish = false

[dependencies]
base64 = "0.22"
rand = "0.8"
serde = { version = "1", features = ["derive"] }
yew = { version = "0.21", features = ["csr"] }
gloo = "0.11"
wasm-bindgen = "0.2"
wasm-bindgen-futures = "0.4"
web-sys = { version = "0.3", features = ["Window", "Location", "Navigator", "Clipboard", "History", "UrlSearchParams", "HtmlInputElement", "KeyboardEvent", "MouseEvent", "InputEvent", "EventTarget"] }
