[package]
name = "glassvis"
version = "0.1.0"
edition = "2021"
publish = false

[dependencies]
image = "0.23"
imageproc = "0.22"
gtk = "=0.9.2"
gio = "=0.9.1"
gdk = "=0.13.2"
gdk-pixbuf = "=0.9.0"
cairo-rs = "=0.9.1"
rscam = "=0.5.5"
