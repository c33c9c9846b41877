[package]
name = "suspense_core"
version = "0.1.0"
edition = "2021"
publish = false

[dependencies]
form_urlencoded = "1"
js-sys = "0.3"
proc-macro2 = "1"
quote = "1"
syn = { version = "1", features = ["full"] }
wasm-bindgen = "0.2"
web-sys = { version = "0.3", features = ["Comment", "Document", "DocumentFragment", "Element", "Event", "EventTarget", "HtmlElement", "HtmlInputElement", "HtmlTemplateElement", "Location", "Node", "NodeList", "Text", "Window"] }
