[package]
name = "wlsnip"
version = "0.1.0"
edition = "2021"
publish = false

[dependencies]
zune-png = "=0.5.2"
zune-core = "=0.5.3"
turbojpeg = "=1.5.1"
font8x8 = "=0.3.1"
clap = { version = "=4.6.7", features = ["derive"] }
wayland-client = "=0.31.15"
wayland-protocols = { version = "=0.32.13", features = ["client", "staging"] }
wayland-protocols-wlr = { version = "=0.3.12", features = ["client"] }
ashpd = { version = "=0.13.13", features = ["screenshot"] }
tokio = { version = "=1.54.1", features = ["rt", "rt-multi-thread", "macros"] }
image = { version = "=0.25.10", default-features = false, features = ["png", "jpeg"] }
thiserror = "=2.0.21"
nix = { version = "=0.30.1", features = ["fs"] }
libc = "=0.2.191"
rayon = "=1.12.0"
serde = { version = "=1.0.229", features = ["derive"] }
serde_json = "=1.0.154"
toml = "=0.8.23"
directories = "=6.0.0"
notify-rust = "=4.18.2"
wl-clipboard-rs = "=0.9.5"
webp = "=0.3.1"
