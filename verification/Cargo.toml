[package]
name = "crisp"
version = "0.1.0"
edition = "2021"
publish = false

[dependencies]
nih_plug_core = "=0.1.2"
nih_plug_egui = "=0.1.2"
