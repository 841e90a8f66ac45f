//! Enumeration of HID devices, grouping of OS interfaces into physical
//! devices, and the report exchange of an opened device.

pub mod device;
pub mod error;
pub mod handle;
pub mod laws;
pub mod text;
