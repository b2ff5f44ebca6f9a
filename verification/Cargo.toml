[package]
name = "tiltak_interface"
version = "0.1.0"
edition = "2021"
publish = false

[dependencies]
async-channel = "*"
board-game-traits = "*"
js-sys = "0.3"
pgn-traits = "*"
wasm-bindgen = "0.2"
wasm-bindgen-futures = "0.4"
