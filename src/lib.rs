//! A canonical hexadecimal dump: rows of sixteen bytes with their offset,
//! their hex values and a printable rendition, where a run of repeated rows
//! collapses into a single `*` line.

mod text;
pub mod dump;
pub mod hex;
pub mod laws;
pub mod printable;

pub use dump::dump;
pub use printable::to_printable_chars;
