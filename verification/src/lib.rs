//! Audio devices and network interfaces, as a calling library deals with them.
//!
//! * [`device`]: the audio devices of a machine and the numbers by which callers
//!   know them.
//! * [`audio`]: choosing the default audio devices when a call starts.
//! * [`redaction`] and [`cubeb_log`]: keeping names of devices out of the log.
//! * [`c_string`]: copying text into buffers that C code reads.
//! * [`os_interfaces`] and [`interface_map`]: selecting the network interfaces
//!   that a call may use.
//!
//! [`profile`] tells what a build is for, [`pattern`] holds the regular
//! expressions that the log redaction rests on, and [`text`] what all of them
//! say about text.
pub mod audio;
pub mod c_string;
pub mod cubeb_log;
pub mod device;
pub mod interface_map;
pub mod os_interfaces;
pub mod pattern;
pub mod profile;
pub mod redaction;
pub mod text;
