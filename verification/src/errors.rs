//! The library's error taxonomy. No error unwinds past the iteration
//! boundary of the main loop; each variant names who may recover.

use vstd::prelude::*;

verus! {

/// What can go wrong below the iteration boundary.
#[derive(Debug, Clone, Copy, PartialEq, Eq, Structural)]
pub enum Error {
    /// No compositor process, or no matching memory mapping.
    DeviceNotFound,
    /// The framebuffer chain violated one of its layout preconditions.
    CorruptLayout,
    /// The analysis reply fell outside the mini-grammar.
    MalformedResponse,
    /// A device emit or read failed.
    IoFailure,
    /// The symbol state file could not be written.
    PersistenceFailure,
}

/// The short description of each error, as it is reported in place.
pub open spec fn sp_describe(e: Error) -> Seq<char> {
    match e {
        Error::DeviceNotFound => "device or mapping not found"@,
        Error::CorruptLayout => "framebuffer layout is corrupt"@,
        Error::MalformedResponse => "analysis reply was malformed"@,
        Error::IoFailure => "device input or output failed"@,
        Error::PersistenceFailure => "symbol state could not be saved"@,
    }
}

impl Error {
    /// A short description, for reporting an error in place.
    pub fn describe(&self) -> (r: &'static str)
        ensures
            r@ == sp_describe(*self),
    {
        match self {
            Error::DeviceNotFound => "device or mapping not found",
            Error::CorruptLayout => "framebuffer layout is corrupt",
            Error::MalformedResponse => "analysis reply was malformed",
            Error::IoFailure => "device input or output failed",
            Error::PersistenceFailure => "symbol state could not be saved",
        }
    }
}

} // verus!
