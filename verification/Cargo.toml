[package]
name = "media_proxy"
version = "0.1.0"
edition = "2021"
publish = false

[dependencies]
bytes = "*"
bytemuck = "*"
fast_image_resize = "*"
lcms2 = "*"
png = "*"
gif = "*"
gif-dispose = "*"
image-webp = "*"
wide = "*"
serde = { version = "*", features = ["derive"] }
serde_json = "*"
figment = { version = "*", features = ["yaml", "toml", "json", "env"] }
thiserror = "*"
tracing = "*"
anyhow = "*"
async-trait = "*"
parking_lot = "*"
futures = "*"
tokio = { version = "*", features = ["full"] }
axum = { version = "*", features = ["ws"] }
tokio-tungstenite = "*"
zip = { version = "*", default-features = false, features = ["deflate"] }
image = { version = "*", default-features = false, features = ["png", "jpeg", "webp", "gif"] }
clap = { version = "*", features = ["derive"] }
reqwest = { version = "*", default-features = false, features = ["json"] }
