[package]
name = "code_to_md"
version = "0.1.0"
edition = "2021"
publish = false

[dependencies]
anyhow = "1"
dirs = "*"
eframe = { version = "*", default-features = false, features = ["default_fonts", "glow", "persistence", "wayland", "x11"] }
git2 = { version = "*", default-features = false }
ignore = "*"
image = { version = "*", default-features = false, features = ["ico"] }
notify = "*"
notify-debouncer-mini = "*"
rfd = "*"
serde = { version = "1", features = ["derive"] }
syntect = { version = "*", default-features = false, features = ["default-fancy"] }
