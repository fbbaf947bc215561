[package]
name = "slik"
version = "0.2.0"
edition = "2021"
publish = false

[dependencies]
leptos = "0.8"
wasm-bindgen = "0.2"
web-sys = { version = "0.3", features = ["CssStyleDeclaration", "HtmlElement", "SvgElement", "Element", "Window", "Document", "MediaQueryList", "Event", "EventTarget"] }
