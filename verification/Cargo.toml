[package]
name = "panorama_reader"
version = "0.1.0"
edition = "2021"
publish = false

[dependencies]
atm-refraction = { version = "=0.6.1", features = ["serialization"] }
bincode = "=1.3.3"
cairo-rs = "=0.8.1"
clap = "=2.34.0"
gdk = "=0.12.1"
gio = "=0.8.1"
glib = "=0.9.3"
gtk = "=0.8.1"
image = "=0.23.14"
libflate = "=1.4.0"
nalgebra = { version = "=0.21.1", features = ["serde-serialize"] }
serde = "=1.0.229"
serde_derive = "=1.0.229"
