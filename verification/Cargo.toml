[package]
name = "chip8"
version = "0.1.0"
edition = "2021"
publish = false

[dependencies]
fastrand = "2"
wasm-bindgen = "0.2"
web-sys = { version = "0.3", features = ["Window", "Document", "Element", "HtmlElement", "HtmlCanvasElement", "CanvasRenderingContext2d", "EventTarget", "console"] }
