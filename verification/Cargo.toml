[package]
name = "filesec"
version = "0.1.0"
edition = "2021"
publish = false

[dependencies]
zeroize = "1"
ctap-hid-fido2 = "*"
directories = "*"
eframe = { version = "*", default-features = false, features = ["default_fonts", "glow", "x11"] }
egui = { version = "*", default-features = false, features = ["default_fonts"] }
fuser = { version = "*", default-features = false }
keyring = "3"
rfd = "*"
serde = { version = "1", features = ["derive"] }
walkdir = "2"
