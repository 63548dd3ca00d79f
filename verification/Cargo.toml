[package]
name = "omarchy-imageview"
version = "0.1.0"
edition = "2021"
publish = false

[dependencies]
natord = "1.0"
sha2 = "0.10"
toml = "0.8"
image = "0.25"
kamadak-exif = "*"
gtk4 = "0.9"
gdk4 = "0.9"
gio = "0.20"
glib = "0.20"
jxl-oxide = "*"
libheif-rs = "*"
dirs = "*"
env_logger = "0.11"
log = "0.4"

[dev-dependencies]
tempfile = "3"
