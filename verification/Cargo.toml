[package]
name = "system_ledger"
version = "0.1.0"
edition = "2021"
publish = false

[dependencies]
bevy_hecs = "=0.2.1"
parking_lot = "=0.11.2"
