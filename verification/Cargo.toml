[package]
name = "wsd_printers"
version = "0.1.0"
edition = "2021"
publish = false

[dependencies]
log = "*"
simplelog = "*"
time = { version = "*", features = ["macros"] }
winapi = { version = "0.3", features = ["winspool", "errhandlingapi", "winbase", "minwindef"] }
