//! Windows, over WinUSB.
pub mod device_path;
pub mod enumeration;
pub mod ids;
pub mod port_chain;
pub mod port_number;
pub mod transfer;
mod win32;
