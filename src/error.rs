use vstd::prelude::*;

verus! {

/// Why a configuration could not be built: one kind per validated field.
#[derive(Debug, Clone, Copy, PartialEq, Eq, Structural)]
pub enum OptError {
    /// The date token is not `YYYYMMDD` (hyphens removed) or names no calendar date.
    DateFormat,
    /// The CDN token is neither `akc` nor `l3c`.
    InvalidChoice,
    /// The starting channel is not a decimal number that fits in a `u32`.
    NumberFormat,
}

} // verus!
