[package]
name = "autkit"
version = "0.1.0"
edition = "2021"
publish = false

[dependencies]
anyhow = "1"
clap = { version = "4", default-features = false, features = ["std", "derive", "help", "usage"] }
cpal = "0.16"
egui = { version = "0.31", default-features = false }
egui-plotter = "*"
egui_taffy = "0.7"
indicatif = { version = "0.17", default-features = false }
lexpr = { version = "0.2", default-features = false }
plotters = { version = "0.3", default-features = false, features = ["line_series"] }
ringbuf = "0.4"
