[package]
name = "softrender"
version = "0.1.0"
edition = "2021"
publish = false

[dependencies]
anyhow = "=1.0.104"
indicatif = "=0.17.11"
libm = "=0.2.16"
lodepng = "=3.12.2"
rand = "=0.7.3"
rayon = "=1.12.0"
wasm-bindgen = "=0.2.129"
web-sys = { version = "=0.3.106", features = ["CanvasRenderingContext2d", "HtmlCanvasElement", "ImageData", "KeyboardEvent", "MouseEvent", "WheelEvent"] }
yew = "=0.17.4"
