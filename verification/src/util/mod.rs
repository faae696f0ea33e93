//! Small utilities: byte packing, version comparison, replay protection,
//! string capitalisation, fixed-size identifiers and random helpers.

pub mod bytes;
pub mod cache;
pub mod version;
pub mod string_map;
pub mod strings;
pub mod nonce;
pub mod random;
pub mod unique_id;
pub mod uuid_text;

pub use nonce::Nonce;
pub use unique_id::UniqueId;
