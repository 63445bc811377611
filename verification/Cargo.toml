[package]
name = "timer_res_benchmark"
version = "0.3.2"
edition = "2021"
publish = false

[dependencies]
colored = "*"
indicatif = "*"
lazy_static = "*"
os_info = "*"
raw-cpuid = "*"
serde = { version = "1", features = ["derive"] }
serde_json = "1"
tokio = { version = "1", features = ["macros", "rt-multi-thread", "time"] }
windows-sys = { version = "*", features = ["Win32_Foundation", "Win32_Security", "Win32_System_Threading"] }
