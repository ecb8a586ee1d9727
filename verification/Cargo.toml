[package]
name = "win_rust_pool"
version = "0.1.0"
edition = "2021"
publish = false

[dependencies]
winapi = { version = "0.3", features = ["handleapi", "minwinbase", "minwindef", "processthreadsapi", "synchapi", "sysinfoapi", "winbase", "winnt"] }
