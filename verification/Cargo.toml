[package]
name = "open_scanline"
version = "0.1.0"
edition = "2021"
publish = false

[dependencies]
clap = { version = "=4.6.7", features = ["derive"] }
ctrlc = "=3.5.2"
eframe = { version = "=0.33.3", default-features = false, features = ["default_fonts", "glow", "x11"] }
getrandom = "=0.3.4"
image = { version = "=0.25.10", default-features = false, features = ["png", "jpeg", "tiff", "bmp"] }
libc = "0.2"
lopdf = { version = "=0.46.0", default-features = false }
mdns-sd = "=0.13.11"
quick-xml = "=0.41.0"
serde = { version = "1", features = ["derive"] }
serde_json = "1"
stringprep = "=0.1.5"
thiserror = "=2.0.21"
tiff = "=0.11.3"
ureq = "=3.5.1"
