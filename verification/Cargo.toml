[package]
name = "jira_to_gantt"
version = "0.1.0"
edition = "2021"
publish = false

[dependencies]
chrono = "0.4"
clap = { version = "3", features = ["derive"] }
colored = "2"
csv = "1"
easy-error = "1"
gantt_chart = "*"
json5 = "0.4"
serde = { version = "1", features = ["derive"] }
