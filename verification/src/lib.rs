//! Verhoeff check digits over ASCII decimal strings.
//!
//! The Verhoeff scheme folds a digit sequence through the multiplication
//! table of the dihedral group of order ten, permuting each digit by its
//! distance from the end of the sequence. One appended check digit then
//! catches every single wrong digit and every swap of two neighbouring
//! digits. Both guarantees are proved in [`laws`].
//!
//! Each entry point comes in two forms: a strict one that returns a
//! `Result` and names what is wrong with the input, and a permissive one
//! that falls back to `0`, `false` or the unchanged input. The permissive
//! fallback of [`calculate_checksum`] cannot be told apart from a genuine
//! check digit of `0`; callers who care use [`calculate_checksum_result`].

pub mod tables;
pub mod text;
pub mod error;
pub mod digits;
pub mod checksum;
pub mod aadhaar;
pub mod laws;

pub use aadhaar::validate_aadhaar;
pub use checksum::{
    append_checksum, calculate_checksum, calculate_checksum_result, validate, validate_result,
};
pub use error::VerhoeffError;
