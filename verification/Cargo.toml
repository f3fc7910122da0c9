[package]
name = "render_alloc"
version = "0.1.0"
edition = "2021"
publish = false

[dependencies]
bitflags = "=2.13.2"
bytemuck = "=1.25.2"
cfg-if = "=1.0.5"
enum_dispatch = "=0.3.13"
oxidx = "=0.8.0"
parking_lot = "=0.12.5"
static_assertions = "=1.1.0"
tracing = "=0.1.44"
tracing-subscriber = "=0.3.23"
winit = "=0.30.13"
