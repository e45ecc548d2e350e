use vstd::prelude::*;

verus! {

/// The error type shared by every encoder and muxer of the library.
///
/// Each variant carries a short static description of what went wrong.
#[derive(Debug, Clone, Copy)]
pub enum Error {
    /// A caller-supplied value was rejected.
    InvalidArgument(&'static str),
    /// The object is not in a state that allows the operation.
    InvalidState(&'static str),
    /// The request is valid in principle but not supported here.
    Unsupported(&'static str),
    /// Writing the output failed.
    Io(&'static str),
}

} // verus!
