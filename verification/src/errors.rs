use vstd::prelude::*;

verus! {

/// What can go wrong between a descriptor and its figure.
#[derive(Debug)]
pub enum Error {
    /// The rendering backend failed; the message is the backend's.
    RenderError(String),
    /// The descriptor is not one that can be drawn; the message says why.
    FormatError(String),
    /// Reserved for failures that belong to neither of the other kinds.
    Unknown,
}

} // verus!
