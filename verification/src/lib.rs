//! A verified packet engine for a network diagnostic toolkit.
//!
//! The engine has three capabilities: crafting byte-correct link-layer
//! frames (Ethernet + IPv4 + transport) with protocol-conformant
//! checksums, decoding captured frames into structured records, and
//! coordinating port probes with well-defined partitioning and result
//! ordering. Interface enumeration, raw sends and receives, channels and
//! the visual shell live outside this crate; they hand the engine plain
//! values and take plain values back.

pub mod checksum;
pub mod crafter;
pub mod net;
pub mod scanner;
pub mod sniffer;
pub mod text;

pub use checksum::calculate_checksum;
