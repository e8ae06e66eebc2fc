[package]
name = "world_study"
version = "0.1.0"
edition = "2021"
publish = false

[dependencies]
geo = { version = "=0.29.3", default-features = false }
rstar = "=0.12.2"
rand = "=0.9.5"
earcutr = "=0.4.3"
svg = "=0.17.0"
serde = { version = "=1.0.229", features = ["derive"] }
serde_json = "=1.0.154"
egui = { version = "=0.31.1", default-features = false }
eframe = { version = "=0.31.1", default-features = false, features = ["glow", "x11"] }
egui_extras = { version = "=0.31.1", default-features = false, features = ["svg"] }
directories = "=6.0.0"
log = "=0.4.34"
once_cell = "=1.21.4"
profiling = "=1.0.18"
