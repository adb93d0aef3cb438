[package]
name = "motion_sensor_lifx"
version = "0.1.0"
edition = "2021"
publish = false

[dependencies]
lifx-core = "*"
gpio-cdev = "*"
