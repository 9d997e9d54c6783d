//! A platform-neutral menu tree with an accelerator table, and the pieces of
//! the native backends that decide what is handed to the window system.
pub mod accel;
pub mod app_menu;
pub mod menu;
pub mod win32;
