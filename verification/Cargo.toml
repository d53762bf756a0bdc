[package]
name = "camera_rtsp"
version = "0.1.0"
edition = "2021"
publish = false

[dependencies]
gio = "=0.9.1"
glib = "=0.10.3"
gstreamer = "=0.16.7"
gstreamer-app = "=0.16.5"
gstreamer-rtsp = "=0.16.5"
gstreamer-rtsp-server = { version = "=0.16.5", features = ["v1_14"] }
itertools = "=0.9.0"
log = "=0.4.35"
