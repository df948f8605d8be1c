[package]
name = "quiz_app"
version = "0.1.0"
edition = "2021"
publish = false

[dependencies]
serde = { version = "1", features = ["derive"] }
serde_json = "1"
rand = "0.8"
leptos = { version = "0.6", features = ["csr"] }
leptos_router = { version = "0.6", features = ["csr"] }
web-sys = { version = "0.3", features = ["Headers", "Request", "RequestInit", "RequestMode", "RequestCredentials", "Response", "Window"] }
wasm-bindgen-futures = "0.4"
console_error_panic_hook = "0.1"
