//! Logitech mice that speak HID++: finding them, reading and setting their sensitivity and report rate, and the profiles
//! in their memory.

pub mod access;
pub mod autostart;
pub mod bytes;
pub mod cli;
pub mod command;
pub mod commanding;
pub mod conduct;
pub mod device;
pub mod display;
pub mod error;
pub mod hexcode;
pub mod hid;
pub mod hidpp;
pub mod notation;
pub mod number;
pub mod order;
pub mod paths;
pub mod printing;
pub mod profile;
pub mod report;
pub mod settings;
pub mod snapshot;
pub mod state;
pub mod text;
pub mod tray;
pub mod utf8;
pub mod window;
