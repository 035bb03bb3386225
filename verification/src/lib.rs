//! What USB host platforms report, made sense of: device properties and identifiers, the place of
//! a device in the bus topology, and the outcome of transfers.
pub mod macos_iokit;
pub mod text;
pub mod transfer;
pub mod windows_winusb;
