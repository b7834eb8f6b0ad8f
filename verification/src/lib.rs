//! Android boot image headers (`boot.img`, `recovery.img`,
//! `vendor_boot.img`): parsing, serialising and section layout.
//!
//! The codec works on bytes. `read` and `parse` take a byte slice that
//! starts with a header, `write` appends a header to a byte vector. Their
//! contracts say which bytes are rejected and with which error, that the
//! fields of an accepted header are what stands at their offsets, and that
//! reading and writing undo each other.
//!
//! Byte array fields (`[u8; N]`) can be used as NUL-terminated strings.
//!
//! This can be used to extract or patch e.g. the kernel or ramdisk.

pub mod error;
pub mod header;
pub mod header_v0;
pub mod header_v3;
pub mod layout;
pub mod magic;
pub mod quote;
pub mod report;
pub mod text;
pub mod unpack;
pub mod vendor;
pub mod version;
pub mod wire;

pub use error::{Error, HeaderVariant};
pub use header::Header;
pub use header_v0::{HeaderV0, HeaderV0Versioned};
pub use header_v3::HeaderV3;
pub use unpack::{Section, SectionKind};
pub use vendor::{VendorHeader, VendorHeaderV4};
pub use version::{OsPatch, OsVersion, OsVersionPatch};
