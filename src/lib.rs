//! Folds a program's compilation units into one self-contained source file: libraries
//! become named modules of the root unit, the manifest is embedded as leading
//! documentation, and the token trees are written back out as text.

pub mod bundle;
pub mod literal;
pub mod manifest;
pub mod render;
pub mod tokens;
