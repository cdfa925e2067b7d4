//! A read-only virtual filesystem over a fixed set of remote resources.
//!
//! The crate holds the translation layer between a virtual-filesystem
//! protocol and a byte-range-capable remote reader: inode allocation,
//! synthetic filename generation, directory enumeration, attribute
//! reporting, and the planning of bounded reads. The surrounding binary
//! performs the actual mounting and network transfers and hands this
//! library plain values.

pub mod attr;
pub mod names;
pub mod locator;
pub mod fs;
