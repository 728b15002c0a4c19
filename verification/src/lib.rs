//! Verified core of an NKRO keyboard controller.
//!
//! The library covers the pure firmware logic: the key identity table
//! ([`keycodes`], [`layout`]), the dual-protocol HID report encoder
//! ([`nkro`], [`layout::bitmap_to_report`]), and the matrix-scan
//! bookkeeping ([`scanner`]). Hardware access (GPIO, USB transport)
//! stays outside and hands this crate plain values.

pub mod keycodes;
pub mod layout;
pub mod nkro;
pub mod scanner;
