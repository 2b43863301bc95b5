[package]
name = "video_transcode"
version = "0.1.0"
edition = "2021"
publish = false

[dependencies]
anyhow = "=1.0.104"
drm = "=0.14.1"
drm-fourcc = "=2.2.0"
ffmpeg-next = "=9.0.0"
libc = "=0.2.191"
rustler = "=0.38.0"
video-interop = "=0.1.3"
