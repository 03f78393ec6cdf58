[package]
name = "tachydom"
version = "0.1.0"
edition = "2021"
publish = false

[dependencies]
slotmap = "1"
futures = "0.3"
parking_lot = "0.12"
tokio = { version = "1", features = ["rt"] }
leptos_reactive = "0.6"
cfg-if = "1"
wasm-bindgen = "0.2"
wasm-bindgen-futures = "0.4"
js-sys = "0.3"
web-sys = { version = "0.3", features = ["Comment", "CssStyleDeclaration", "Document", "DocumentFragment", "DomTokenList", "Element", "HtmlElement", "Node", "Text", "Window", "console"] }
