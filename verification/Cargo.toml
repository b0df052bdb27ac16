[package]
name = "cli_clipboard"
version = "0.1.0"
edition = "2021"
publish = false

[dependencies]
clipboard-win = "=5.4.3"
objc2 = "=0.5.3"
objc2-app-kit = { version = "=0.2.2", features = ["NSImage", "NSPasteboard", "NSPasteboardItem"] }
objc2-foundation = { version = "=0.2.2", features = ["NSArray", "NSData", "NSEnumerator", "NSString", "NSURL"] }
wl-clipboard-rs = "=0.9.4"
x11-clipboard = "=0.9.3"
x11rb = "=0.13.2"
