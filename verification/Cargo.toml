[package]
name = "debug-service"
version = "0.1.0"
edition = "2021"
publish = false

[dependencies]
critical-section = { version = "=1.2.0", features = ["std"] }
embassy-executor = { version = "=0.9.1", features = ["arch-std", "executor-thread"] }
embassy-sync = "=0.7.2"
embassy-time = { version = "=0.5.1", features = ["std"] }
heapless = "=0.8.0"
log = "0.4"
static_cell = "=2.1.1"
