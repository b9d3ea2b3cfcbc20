[package]
name = "swiss_knife"
version = "0.1.0"
edition = "2021"
publish = false

[dependencies]
sha3 = "=0.12.0"
hex = "=0.4.3"
ncrypt-me = "=0.4.2"
eframe = { version = "=0.36.2", default-features = false, features = ["glow", "default_fonts", "x11"] }
egui = "=0.36.2"
egui_extras = { version = "=0.36.2", default-features = false }
rfd = { version = "=0.17.2", default-features = false, features = ["xdg-portal"] }
zeus-theme = "=0.5.0"
zeus-widgets = "=0.5.0"
zeus-ui-components = { version = "=0.5.0", features = ["secure-types"] }
