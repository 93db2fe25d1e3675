[package]
name = "runtime_host"
version = "0.1.0"
edition = "2021"
publish = false

[dependencies]
quick-xml = "=0.41.0"
serde = { version = "=1.0.229", features = ["derive"] }
serde_json = "=1.0.154"
sha2 = "=0.10.9"
thiserror = "=2.0.21"
windows = { version = "=0.62.2", features = ["ApplicationModel", "Foundation_Collections", "Management_Deployment", "System"] }
windows-sys = { version = "=0.59.0", features = ["Win32_Foundation", "Win32_NetworkManagement_IpHelper", "Win32_Networking_WinSock", "Win32_Security", "Win32_Storage_FileSystem", "Win32_System_Registry", "Win32_System_Threading"] }
