[package]
name = "wutengine"
version = "0.1.0"
edition = "2021"
publish = false

[dependencies]
uuid = "=1.29.0"
twox-hash = "=2.1.5"
cursor-icon = "=1.2.0"
winit = "=0.30.13"
hecs = "=0.10.5"
bytemuck = { version = "1", features = ["must_cast"] }
