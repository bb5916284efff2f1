[package]
name = "aster"
version = "0.1.0"
edition = "2021"
publish = false

[dependencies]
ropey = "1.6"
camino = "1"
pulldown-cmark = "*"
url = "2"
serde = { version = "1", features = ["derive"] }
serde_json = "1"
directories = "*"
once_cell = "1"
