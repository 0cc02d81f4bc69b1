[package]
name = "graph_state"
version = "0.1.0"
edition = "2021"
publish = false

[dependencies]
petgraph = "=0.8.3"
egui_graphs = { version = "=0.25.1", features = ["events"] }
rand = "=0.9.5"
crossbeam-channel = "=0.5.17"
egui = "=0.31.1"
eframe = { version = "0.31", default-features = false, features = ["glow", "default_fonts", "x11"] }
