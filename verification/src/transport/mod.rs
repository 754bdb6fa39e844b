//! Framed video transport to the device over `adb forward`.

pub mod adb;
pub mod sender;
