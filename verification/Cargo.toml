[package]
name = "mcap_video_extract"
version = "0.1.0"
edition = "2021"
publish = false

[dependencies]
anyhow = "1"
clap = { version = "4", features = ["derive"] }
gstreamer = "*"
# kstring (pulled in by gstreamer) is held back to a patch this toolchain builds
kstring = "=2.0.2"
gstreamer-app = "*"
mcap = "*"
memmap2 = "*"
