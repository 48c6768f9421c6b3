[package]
name = "ct"
version = "0.1.0"
edition = "2021"
publish = false

[dependencies]
png = "=0.17.16"
egui = "=0.27.2"
rfd = { version = "=0.14.1", default-features = false }
cli-clipboard = "=0.4.0"
i18n-embed = { version = "=0.14.1", features = ["fluent-system", "desktop-requester"] }
i18n-embed-fl = "=0.8.0"
rust-embed = "=8.5.0"
