[package]
name = "drum_machine"
version = "0.1.0"
edition = "2021"
publish = false

[dependencies]
cpal = "*"
gdk = "*"
gio = "*"
glib = "*"
gtk = "*"
hound = "*"
