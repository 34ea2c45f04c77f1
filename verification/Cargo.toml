[package]
name = "simulation"
version = "0.1.0"
edition = "2021"
publish = false

[dependencies]
azalea-client = "=0.9.0"
azalea-core = "=0.9.0"
azalea-entity = "=0.9.0"
azalea-physics = "=0.9.0"
azalea-registry = "=0.9.0"
azalea-world = "=0.9.0"
bevy_app = "0.12"
bevy_ecs = "0.12"
parking_lot = "0.12"
uuid = "1"
