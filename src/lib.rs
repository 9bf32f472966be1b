//! Phone-number prefix lookup over a compact binary data file.
//!
//! The file holds an 8-byte header (a 4-byte version tag and the
//! little-endian offset of the index segment), a segment of NUL-terminated
//! `|`-delimited text records, and a sorted index of 9-byte entries.
pub mod carrier;
pub mod error;
pub mod index;
pub mod phone;
pub mod record;
pub mod util;

pub use carrier::Isp;
pub use error::PhoneError;
pub use index::{find, IndexData};
pub use phone::PhoneData;
pub use record::RecordData;
pub use util::{replace_home, u8_i32};
