[package]
name = "lms_player"
version = "0.1.0"
edition = "2021"
publish = false

[dependencies]
bytes = "1"
bitflags = "2"
mac_address = "1"
anyhow = "1"
clap = { version = "4", features = ["derive"] }
crossbeam = "0.8"
log = "0.4"
simple_logger = "5"
hostname = "0.4"
which = "*"
dirs = "*"
cfg-if = "1"
bytemuck = "1"
libc = "0.2"
ffmpeg-next = "*"
ffmpeg-sys-next = "*"
libpulse-binding = "2"
pipewire = "*"
rodio = "*"
notify-rust = "*"
