[package]
name = "arctos"
version = "0.1.0"
edition = "2021"
publish = false

[dependencies]
chrono = "=0.4.45"
urlencoding = "=2.1.3"
serde = { version = "=1.0.229", features = ["derive"] }
serde_json = "=1.0.154"
futures = "=0.3.34"
gloo-timers = { version = "=0.3.0", features = ["futures"] }
js-sys = "=0.3.107"
wasm-bindgen = "=0.2.130"
wasm-bindgen-futures = "=0.4.80"
web-sys = { version = "=0.3.107", features = ["Window", "Document", "Storage", "StorageEvent", "Element", "HtmlElement", "DomRect", "Location", "UrlSearchParams", "EventTarget", "Event", "KeyboardEvent", "FocusEvent", "Blob", "BlobPropertyBag", "Url"] }
dioxus = { version = "=0.7.10", default-features = false, features = ["macro", "html", "signals", "hooks", "router"] }
