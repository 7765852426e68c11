[package]
name = "snake_game"
version = "0.1.0"
edition = "2021"
publish = false

[dependencies]
getrandom = "*"
wasm-bindgen = "*"
js-sys = "*"
web-sys = { version = "*", features = ["Window", "Document", "Element", "EventTarget", "Node", "HtmlCanvasElement", "HtmlElement", "CanvasRenderingContext2d", "KeyboardEvent"] }
