[package]
name = "canvas_demos"
version = "0.1.0"
edition = "2021"
publish = false

[dependencies]
askama = { version = "=0.12.1", features = ["with-axum"] }
askama_axum = "=0.4.0"
axum = { version = "=0.7.9", features = ["ws"] }
axum-extra = { version = "=0.9.6", features = ["typed-header"] }
rand = "=0.7.3"
tokio = { version = "=1.54.1", features = ["full"] }
tower-http = { version = "=0.5.2", features = ["compression-br", "compression-gzip", "compression-zstd", "fs", "trace"] }
tracing-subscriber = { version = "=0.3.23", features = ["env-filter"] }
wasm-bindgen = "=0.2.129"
web-sys = { version = "=0.3.106", features = ["CanvasRenderingContext2d", "Document", "Element", "Event", "EventTarget", "HtmlCanvasElement", "HtmlElement", "KeyboardEvent", "MouseEvent", "Node", "Window"] }
