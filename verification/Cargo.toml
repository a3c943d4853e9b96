[package]
name = "graph_ed"
version = "0.1.0"
edition = "2021"
publish = false

[dependencies]
chrono = "0.4"
dataloader = "0.18"
diesel = { version = "1.4", features = ["postgres", "chrono"] }
dotenv = "0.15"
futures = "0.3"
juniper = { version = "0.17", features = ["chrono"] }
juniper_rocket = "0.10"
r2d2 = "0.8"
r2d2-diesel = "1.0"
rocket = "0.5"
serde = { version = "1", features = ["derive"] }
