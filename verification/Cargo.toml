[package]
name = "kms_backend"
version = "0.1.0"
edition = "2021"
publish = false

[dependencies]
drm = "0.6"
drm-fourcc = "2"
slog = "2"
xcursor = "0.3"
