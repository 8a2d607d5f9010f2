[package]
name = "rattus"
version = "0.1.0"
edition = "2021"
publish = false

[dependencies]
rand = "0.8"
serde = { version = "1", features = ["derive"] }
serde_derive = "1"
toml = "0.5"
inputbot = "*"
enclose = "*"
windows = { version = "0.43", features = ["Foundation_Collections", "UI_Input_Preview_Injection", "Win32_Foundation", "Win32_UI_Input_KeyboardAndMouse", "implement"] }
