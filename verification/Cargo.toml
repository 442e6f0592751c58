[package]
name = "wg_boringtun"
version = "0.1.0"
edition = "2021"
publish = false

[dependencies]
base64 = "=0.22.1"
boringtun = "=0.7.1"
libc = "=0.2.191"
napi-derive-ohos = "=1.2.0"
napi-ohos = "=1.2.0"
once_cell = "=1.21.4"
