//! Field-level adaptors that carry a sequence of fixed-width plain values, or a
//! UTF-8 string, as URL-safe base64 text.
pub mod base64;
pub mod base64_if_readable;
pub mod base64_string;
pub mod codec;
pub mod error;
pub mod plain;
