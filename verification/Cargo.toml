[package]
name = "electrolyte"
version = "0.1.0"
edition = "2021"
publish = false

[dependencies]
chrono = "=0.4.45"
ion-c-sys = "=0.4.17"
num-bigint = "=0.3.3"
