//! The failures that the library reports to its callers.

use vstd::prelude::*;

verus! {

/// A published payload does not have the shape of a notification.
#[derive(Clone, Copy, Debug, PartialEq, Eq, Structural)]
pub enum DecodeError {
    /// The payload is not UTF-8 text.
    InvalidUtf8,
}

/// A stored record cannot be turned into its wire message.
#[derive(Clone, Copy, Debug, PartialEq, Eq, Structural)]
pub enum ConversionError {
    /// The record's category code is none of the known ones.
    UnknownPlanetType,
    /// The asset store holds no image under the record's derived key.
    MissingImage,
    /// The mean radius does not fit the wire message's number.
    MeanRadiusOutOfRange,
    /// The mass does not fit the wire message's number.
    MassOutOfRange,
}

} // verus!
