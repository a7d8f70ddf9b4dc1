[package]
name = "todo"
version = "0.1.0"
edition = "2021"
publish = false

[dependencies]
serde = { version = "1", features = ["derive"] }
serde_json = "1"
gtk4 = "0.7"
libadwaita = "0.5"
glib = "0.18"
gio = "0.18"
gdk4 = "0.7"
pango = "0.18"
