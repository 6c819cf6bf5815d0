//! Core of a minimal virtual character-device driver.
//!
//! Each device owns one resizable in-memory byte buffer and an identifying
//! number. A manager owns a fixed collection of such devices, built from a
//! configured count, and implements the open/read/write entry points an
//! operating system invokes on the registered device nodes: reads clamp the
//! offset against the current length, writes grow the buffer with zero fill,
//! and opening a device write-only discards its contents.
//!
//! Registration of the device nodes with the host, locking, and the transfer
//! of bytes to and from user buffers are the host's business and stay outside
//! this crate; the core works on plain byte vectors.

pub mod device;
pub mod errors;
pub mod manager;
pub mod naming;

pub use device::Device;
pub use errors::VdevError;
pub use manager::AccessMode;
pub use manager::DeviceManager;
pub use naming::device_name;
