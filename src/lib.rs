//! A stable, keyed, hashed identifier for a machine.
//!
//! Callers select identity components (system id, disk id, MAC address, ...) on an
//! [`IdBuilder`]; building resolves each component through a probe, concatenates the
//! fragments in insertion order and returns the lowercase hex HMAC of the result.
#![allow(non_snake_case)]

pub mod component;
pub mod digest;
pub mod errors;
pub mod linux;
pub mod macos;
pub mod system;
pub mod text;
pub mod windows;

pub use component::{canonicalize, HWIDComponent, IdBuilder};
pub use digest::Encryption;
pub use errors::HWIDError;
pub use linux::{
    get_hwid, get_mac_address, mac_address_path, mac_interface_candidates, Device, Output,
};
pub use macos::{parse_diskutil_uuid, parse_ifconfig_mac, parse_ioreg_uuid};
pub use system::{cores_text, new_token, reported_or, stored_token};
pub use text::{contains_text, decimal, same_text, split_text, strip_char};
pub use windows::parse_wmic_disk_serial;
