[package]
name = "epidemic_sim"
version = "0.1.0"
edition = "2021"
publish = false

[dependencies]
rand = "=0.8.8"
egui = "0.29"
egui_plot = "0.29"
