[package]
name = "mdr"
version = "0.1.0"
edition = "2021"
publish = false

[dependencies]
base64 = "=0.22.1"
clap = { version = "=4.6.7", default-features = false, features = ["std", "derive", "help", "usage", "error-context"] }
comrak = { version = "=0.57.0", default-features = false }
crossterm = "=0.29.0"
image = { version = "=0.25.10", default-features = false, features = ["png", "jpeg", "gif"] }
mermaid-rs-renderer = { version = "=0.3.1", default-features = false }
notify = "=8.2.0"
notify-debouncer-mini = "=0.7.0"
ratatui = { version = "=0.30.2", default-features = false, features = ["crossterm"] }
ratatui-image = { version = "=11.1.0", default-features = false, features = ["crossterm"] }
regex = "=1.13.1"
resvg = { version = "=0.48.1", default-features = false, features = ["text", "system-fonts"] }
serde_json = "=1.0.154"
tiny-skia = "=0.12.0"
ureq = { version = "=2.12.1", default-features = false }
usvg = { version = "=0.48.1", default-features = false, features = ["text", "system-fonts"] }
