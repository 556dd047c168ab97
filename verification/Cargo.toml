[package]
name = "groovebox"
version = "0.1.0"
edition = "2021"
publish = false

[dependencies]
ahash = "=0.8.12"
egui-macroquad = "=0.17.3"
kira = { version = "=0.8.7", default-features = false, features = ["ogg", "wav"] }
macroquad = { version = "=0.4.16", default-features = false }
rfd = { version = "=0.17.2", default-features = false, features = ["xdg-portal"] }
