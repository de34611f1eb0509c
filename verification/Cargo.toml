[package]
name = "ledger_transport_ble"
version = "0.1.0"
edition = "2021"
publish = false

[dependencies]
btleplug = "=0.11.8"
byteorder = "=1.5.0"
dbus = { version = "=0.9.12", features = ["vendored"] }
futures = "=0.3.34"
ledger-transport = "=0.10.0"
log = "=0.4.35"
tokio = { version = "=1.54.1", features = ["time"] }
uuid = "=1.29.0"
