[package]
name = "rclisp"
version = "0.1.0"
edition = "2021"
publish = false

[dependencies]
anyhow = "=1.0.104"
clap = { version = "=4.6.7", features = ["derive"] }
console_error_panic_hook = "=0.1.7"
log = "=0.4.34"
pretty_env_logger = "=0.5.0"
rustyline = "=19.0.0"
rustyline-derive = "=0.13.0"
wasm-bindgen = "=0.2.129"
web-sys = { version = "=0.3.106", features = ["Document", "Element", "HtmlElement", "KeyboardEvent", "Window"] }
wee_alloc = "=0.4.5"
xterm-js-rs = { version = "=0.1.2", features = ["xterm-addon-fit"] }
