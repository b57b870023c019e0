[package]
name = "queue_sim"
version = "0.1.0"
edition = "2021"
publish = false

[dependencies]
rand = "0.9"
ordered-float = "5"
serde = { version = "1", features = ["derive"] }
serde_json = "1"
cpu-time = "1"
rocket = { version = "0.5", features = ["json"] }
rocket_dyn_templates = { version = "0.2", features = ["tera"] }
