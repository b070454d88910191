//! Colour palette toolkit core: palette file formats (GPL, ASE), text
//! exporters, hex notation, and the registry of palette generation methods.

pub mod color;
pub mod export;
pub mod generators;
pub mod import;
pub mod method;
pub mod registry;
pub mod roundtrip;
pub mod text;
