[package]
name = "systemd_dbus"
version = "0.1.0"
edition = "2021"
publish = false

[dependencies]
dbus = "=0.2.3"
