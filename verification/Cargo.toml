[package]
name = "mihomo_tray"
version = "0.1.0"
edition = "2021"
publish = false

[dependencies]
anyhow = "1"
log = "0.4"
serde = { version = "1", features = ["derive"] }
serde_json = "1"
serde_yaml = "0.9"
flate2 = "1"
zip = { version = "2", default-features = false, features = ["deflate"] }
image = { version = "0.25", default-features = false, features = ["png"] }
dirs = "5"
open = "5"
sys-locale = "0.3"
log4rs = { version = "1", default-features = false, features = ["rolling_file_appender", "compound_policy", "size_trigger", "fixed_window_roller", "console_appender", "pattern_encoder"] }
notify-debouncer-mini = { version = "0.4", default-features = false }
winit = { version = "0.30", default-features = false, features = ["x11", "rwh_06"] }
tray-icon = "0.19"
softbuffer = { version = "0.4", default-features = false, features = ["x11"] }
rfd = { version = "0.15", default-features = false, features = ["gtk3"] }
dark-light = "2"
sysproxy = "0.3"
winreg = "0.52"
