[package]
name = "entity_arena"
version = "0.1.0"
edition = "2021"
publish = false

[dependencies]
glium = "*"
