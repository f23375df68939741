[package]
name = "sctk_event_loop"
version = "0.1.0"
edition = "2021"
publish = false

[dependencies]
calloop = "=0.14.5"
calloop-wayland-source = "=0.4.1"
futures = "=0.3.34"
log = "=0.4.35"
raw-window-handle = "=0.6.2"
smithay-client-toolkit = { version = "=0.20.0", default-features = false, features = ["calloop"] }
tracing = "=0.1.44"
wayland-backend = { version = "=0.3.17", features = ["client_system", "dlopen"] }
wayland-client = "=0.31.15"
wayland-protocols = { version = "=0.32.13", features = ["client", "staging", "unstable"] }
winit = { version = "=0.30.13", default-features = false, features = ["wayland", "wayland-dlopen", "rwh_06"] }
