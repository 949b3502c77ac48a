[package]
name = "comandas"
version = "0.1.0"
edition = "2021"
publish = false

[dependencies]
serde = { version = "1", features = ["derive"] }
serde_json = "1"
leptos = { version = "0.8", features = ["csr"] }
leptos_router = "0.8"
leptos_icons = "*"
icondata = "*"
wasm-bindgen = "0.2"
js-sys = "0.3"
web-sys = { version = "0.3", features = ["Window", "Storage", "Location", "CustomEvent", "Event", "EventTarget", "Document", "Element", "HtmlElement", "HtmlImageElement", "HtmlCanvasElement", "CanvasRenderingContext2d", "FileReader", "File", "FileList", "HtmlInputElement"] }
reqwest = { version = "0.12", default-features = false, features = ["json"] }
