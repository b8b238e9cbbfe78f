[package]
name = "webview_shell"
version = "0.1.0"
edition = "2021"
publish = false

[dependencies]
chrono = { version = "=0.4.45", default-features = false, features = ["clock"] }
url = "=2.5.8"
open = "=5.4.4"
log = "=0.4.34"
tauri = { version = "2", default-features = false, features = ["wry"] }
