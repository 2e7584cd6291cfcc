[package]
name = "rotation_curves"
version = "0.1.0"
edition = "2021"
publish = false

[dependencies]
icondata = "*"
leptos = { version = "*", features = ["csr"] }
leptos-chartistry = "*"
leptos_icons = "*"
leptos-use = "*"
log = "=0.4.34"
reqwasm = "=0.5.0"
scilib = "=1.0.0"
serde = { version = "=1.0.229", features = ["derive"] }
serde_json = "=1.0.154"
wasm-bindgen = "=0.2.129"
wasm-bindgen-futures = "*"
web-sys = { version = "*", features = ["Window", "Navigator", "Document", "Element", "Event", "HtmlInputElement", "WheelEvent", "UiEvent"] }
