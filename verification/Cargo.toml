[package]
name = "paneru"
version = "0.3.0"
edition = "2021"
publish = false

[dependencies]
accessibility-sys = "0.2"
bevy = { version = "0.17", default-features = false }
chrono = "0.4"
clap = { version = "4", features = ["derive", "cargo"] }
embed_plist = "1"
env_logger = "0.11"
log = "0.4"
notify = "8"
objc2 = "0.6"
objc2-app-kit = { version = "0.3", default-features = false, features = ["std", "NSApplication", "NSEvent", "NSResponder", "NSRunningApplication", "NSGraphics"] }
objc2-core-foundation = { version = "0.3", default-features = false, features = ["std", "CFCGTypes", "CFString"] }
objc2-core-graphics = { version = "0.3", default-features = false, features = ["std", "CGDirectDisplay"] }
objc2-foundation = { version = "0.3", default-features = false, features = ["std", "NSDate", "NSObjCRuntime", "NSRunLoop", "NSString"] }
stdext = "0.3"
