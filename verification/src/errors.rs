//! Error taxonomy: each failure the library or its data-source boundary
//! can report is a distinct type, so callers cannot confuse them.

use vstd::prelude::*;

verus! {

/// A textual color literal does not match the recognized grammar.
#[derive(Clone, Copy, Debug, PartialEq, Eq, Structural)]
pub struct ParseError;

/// A row of the tabular spectral source cannot be decoded into a
/// (wavelength, tristimulus) pair; decoding aborts at such a row.
#[derive(Clone, Copy, Debug, PartialEq, Eq, Structural)]
pub struct RowDecodeError;

/// Chromaticity was requested for a zero-sum tristimulus (pure black).
#[derive(Clone, Copy, Debug, PartialEq, Eq, Structural)]
pub struct DegenerateStimulusError;

/// The tabular spectral source could not be opened. Reported by the
/// boundary that performs the open; recoverable, never fatal.
#[derive(Clone, Copy, Debug, PartialEq, Eq, Structural)]
pub struct DataSourceUnavailable;

} // verus!
