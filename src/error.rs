use vstd::prelude::*;

verus! {

/// The errors that end the processing of one representation.
#[derive(Debug, PartialEq, Eq)]
pub enum Error {
    /// A list of paths of the wrong length: expected, got.
    InvalidPathNum(usize, usize),
    /// A value could not be converted.
    FailedToConvert,
    /// An error reported by a collaborator: its name and message.
    Crate(String, String),
    /// A key that was looked up is not there.
    Missing,
    /// A box header holds an impossible size.
    MalformedBox,
    /// A second type box or container-metadata box for one representation.
    DuplicateInit,
    /// A container-metadata or fragment-header box with more than one stream.
    MultipleTracks,
    /// A fragment arrived before its representation was set up.
    MissingTrack,
    /// A payload box arrived while no group was open.
    MissingGroup,
    /// The sample entry names a codec family that is not supported.
    UnsupportedCodec,
    /// A timestamp too large for the priority range.
    PriorityOverflow,
    /// The catalog refused a value.
    Catalog,
    /// A box that the decoder could not read.
    Decode,
    /// Anything else.
    Other,
}

} // verus!
