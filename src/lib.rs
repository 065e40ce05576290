//! The coordination core of a keyboard-lighting and power daemon for laptops:
//! the device and compositor state the daemon guards, the client request
//! dispatcher, the bus-event router, the temperature-driven fan loop, the
//! lock-order rule, persistence of the effect stack, and the reading of CPU
//! temperatures from sensor reports.

pub mod codec;
pub mod comms;
pub mod device;
pub mod dispatch;
pub mod effects;
pub mod fan;
pub mod locks;
pub mod router;
pub mod sensors;
