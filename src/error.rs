use vstd::prelude::*;

verus! {

/// Everything that can go wrong while decoding or projecting a save file.
#[derive(Debug, Clone, PartialEq)]
pub enum GVASError {
    /// The input ended before a field was complete.
    IOError,
    /// A property that the track layout needs is absent.
    Missing(&'static str),
    /// A property exists but does not hold the expected kind of array.
    WrongType,
    /// A string lacks its terminating NUL.
    MalformedString,
    /// The file does not start with `GVAS`.
    BadMagic,
    /// A type name, struct kind or text layout that this codec does not handle.
    UnsupportedFormat,
    /// A flag byte that must be zero is not.
    UnsupportedFlag,
    /// A GUID that must be all zero is not.
    UnsupportedGuid,
    /// A struct array names another property than the one that holds it.
    NameMismatch,
    /// The curve arrays disagree in length or hold an out-of-range index.
    Inconsistent,
    /// A curve holds a spline type code outside the known set.
    InvalidSplineType,
}

} // verus!
