[package]
name = "window_switcher"
version = "2.0.0"
edition = "2021"
publish = false

[dependencies]
indexmap = "=2.14.2"
anyhow = "=1.0.104"
log = "=0.4.35"
parking_lot = "=0.12.5"
simple-logging = "=2.0.2"

[dependencies.windows]
version = "=0.61.3"
features = [
    "Wdk_System_SystemServices",
    "Win32_Foundation",
    "Win32_Graphics_Dwm",
    "Win32_Graphics_Gdi",
    "Win32_Graphics_GdiPlus",
    "Win32_Security",
    "Win32_Storage_EnhancedStorage",
    "Win32_Storage_Packaging_Appx",
    "Win32_System_Com",
    "Win32_System_Com_StructuredStorage",
    "Win32_System_LibraryLoader",
    "Win32_System_Registry",
    "Win32_System_SystemInformation",
    "Win32_System_Threading",
    "Win32_System_Variant",
    "Win32_UI_HiDpi",
    "Win32_UI_Input_KeyboardAndMouse",
    "Win32_UI_Shell_PropertiesSystem",
    "Win32_UI_WindowsAndMessaging",
]
