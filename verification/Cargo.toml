[package]
name = "open_mouse_memory"
version = "0.1.0"
edition = "2021"
publish = false

[dependencies]
clap = { version = "4", features = ["derive"] }
eframe = { version = "0.32", default-features = false, features = ["default_fonts", "glow", "x11", "wayland"] }
egui-phosphor = "0.10"
hex = "0.4"
hidapi = { version = "2.6", default-features = false, features = ["linux-native-basic-udev"] }
ksni = { version = "0.3", features = ["blocking"] }
libc = "0.2"
serde = { version = "1", features = ["derive"] }
serde_json = "1"
thiserror = "2"
winit = { version = "0.30", default-features = false, features = ["x11", "wayland"] }
