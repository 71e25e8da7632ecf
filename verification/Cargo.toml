[package]
name = "svg_tiles"
version = "0.1.0"
edition = "2021"
publish = false

[dependencies]
actix-web = "4"
clap = { version = "4", features = ["derive"] }
png = "=0.17.16"
resvg = "0.45"
serde_json = "1"
tiny-skia = "=0.11.4"
usvg = "0.45"
