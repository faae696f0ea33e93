//! File-adjacent helpers: a `multipart/form-data` body builder.

pub mod multipart;

pub use multipart::Multipart;
