[package]
name = "bypax_platform"
version = "0.1.0"
edition = "2021"
publish = false

[dependencies]
serde = { version = "1", features = ["derive"] }
serde_json = "1"
winreg = "*"
winapi = { version = "0.3", features = ["wininet", "handleapi", "processthreadsapi", "securitybaseapi", "winnt"] }
