[package]
name = "moreland"
version = "0.1.0"
edition = "2021"
publish = false

[dependencies]
anyhow = "1"
drm-fourcc = "=2.2.0"
evdev = "=0.13.2"
gbm = "=0.18.0"
gstreamer = "0.23"
gstreamer-allocators = "0.23"
gstreamer-app = "0.23"
gstreamer-video = "0.23"
memmap2 = "=0.9.12"
pipewire = "=0.10.1"
png = "=0.18.1"
rustix = { version = "=1.1.6", features = ["fs", "time"] }
serde_json = "=1.0.154"
signal-hook = "=0.3.18"
tracing = "0.1"
tracing-subscriber = { version = "0.3", features = ["env-filter"] }
wayland-backend = "0.3"
wayland-client = "=0.31.15"
wayland-protocols = { version = "=0.32.13", features = ["client", "staging", "unstable"] }
wayland-scanner = "0.31"
