[package]
name = "roguelike"
version = "0.1.0"
edition = "2021"
publish = false

[dependencies]
bevy = { version = "0.5", default-features = false, features = ["render"] }
bevy_ecs_tilemap = "0.4"
env_logger = "0.9"
log = "0.4"
noise = "0.7"
rand = "0.8"
