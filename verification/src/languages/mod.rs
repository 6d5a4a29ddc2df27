//! Per-language symbol and import extraction.

pub mod syntax;
pub mod go;
pub mod python;
pub mod rust;
