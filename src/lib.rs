//! Decoding of glTF scene data into the wg3d engine model: typed accessor
//! decoding, skeleton building, animation channel sampling and vertex
//! assembly, each with its behaviour stated in contracts and proved.
//!
//! Floating-point values travel as their IEEE-754 bit patterns (`u32`), and
//! normalized integers as exact fractions, so every result is stated exactly.

pub mod accessor;
pub mod animation;
pub mod convert;
pub mod error;
pub mod material;
pub mod mesh;
pub mod morph_target;
pub mod packing;
pub mod primitive;
pub mod scene;
pub mod skin;
pub mod texture;

pub use error::ConvertError;
