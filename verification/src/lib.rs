//! Verified core of a Linux hardware monitor: parsing of kernel text
//! interfaces, CPU statistics and display helpers.

pub mod autostart;
pub mod cpu;
pub mod display;
pub mod hardware;
pub mod memory;
pub mod numbers;
pub mod sensors;
pub mod text;
pub mod translations;
