[package]
name = "gecko"
version = "0.1.0"
edition = "2021"
publish = false

[dependencies]
wgpu = "*"
slotmap = "*"
tracing = "*"
thiserror = "*"
anyhow = "*"
pollster = "*"
winit = "*"
encase = "*"
bytemuck = { version = "*", features = ["derive"] }
tracing-subscriber = { version = "*", features = ["env-filter"] }
dear-imgui-rs = "*"
dear-imgui-wgpu = "*"
dear-imgui-winit = "*"
