//! A small color-science library: colors as 8-bit gamma-encoded sRGB,
//! linear RGB, and CIE XYZ tristimulus values, with verified conversions,
//! chromaticity derivation, additive mixing, textual parsing and rendering,
//! and a decoder for tabulated spectral records.
//!
//! All non-integral quantities are carried in fixed point: one unit of
//! linear light, one unit of chromaticity, and one nanometer of wavelength
//! are each `fixed::SCALE` steps.

pub mod color;
pub mod errors;
pub mod xyz;
pub mod fixed;
pub mod render;
pub mod roles;
pub mod spectral;
pub mod text;
pub mod transfer;
