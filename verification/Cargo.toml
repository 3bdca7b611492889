[package]
name = "bevy_dioxus_sync"
version = "0.1.0"
edition = "2021"
publish = false

[dependencies]
crossbeam-channel = "=0.5.17"
bevy_ecs = "=0.17.3"
bevy_app = "=0.17.3"
bevy_asset = "=0.17.3"
bevy_log = "=0.17.3"
dioxus-core = "=0.7.10"
dioxus-core-macro = "=0.7.10"
dioxus-hooks = "=0.7.10"
dioxus-signals = "=0.7.10"
async-std = "=1.13.2"
blitz-traits = "=0.2.0"
keyboard-types = "=0.7.0"
bevy_input = "=0.17.3"
bevy_window = "=0.17.3"
