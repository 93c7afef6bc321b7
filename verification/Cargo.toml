[package]
name = "erqol"
version = "0.1.0"
edition = "2021"
publish = false

[dependencies]
eldenring = "*"
fromsoftware-shared = "*"
ilhook = "*"
pelite = "*"
serde = { version = "1", features = ["derive"] }
serde_json = "1"
windows = { version = "*", features = ["Win32_Foundation", "Win32_System_Memory", "Win32_System_Diagnostics_Debug", "Win32_System_Diagnostics_ToolHelp", "Win32_System_LibraryLoader", "Win32_System_Kernel"] }
