[package]
name = "mameuix"
version = "0.1.0"
edition = "2021"
publish = false

[dependencies]
rayon = "=1.12.0"
walkdir = "=2.5.0"
egui = "=0.36.2"
egui-toast = "=0.22.0"
image = { version = "=0.25.10", default-features = false, features = ["png", "jpeg", "bmp", "gif", "ico"] }
zip = { version = "=9.2.2", default-features = false, features = ["deflate"] }
num_cpus = "=1.17.0"
chrono = { version = "=0.4.45", default-features = false, features = ["clock"] }
