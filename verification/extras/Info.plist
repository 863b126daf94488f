<?xml version="1.0" encoding="UTF-8"?>
<!DOCTYPE plist PUBLIC "-//Apple//DTD PLIST 1.0//EN" "http://www.apple.com/DTDs/PropertyList-1.0.dtd">
<plist version="1.0">
<dict>
    <key>CFBundleName</key>
    <string>paneru</string>
    <key>CFBundleExecutable</key>
    <string>paneru</string>
    <key>CFBundleShortVersionString</key>
    <string>0.3.0</string>
    <key>LSUIElement</key>
    <true/>
</dict>
</plist>
