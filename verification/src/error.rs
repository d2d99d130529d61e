use vstd::prelude::*;

verus! {

/// The two recoverable failures of the metadata layer.
#[derive(Clone, Copy, Debug, PartialEq, Eq, Structural)]
pub enum AotError {
    /// A structure of the image is malformed: an encoding runs past the end,
    /// a marker byte is invalid, a signature does not match.
    BadImage,
    /// A handle's kind is outside the known set or is not the expected one.
    InvalidMetaHandle,
}

impl AotError {
    /// The diagnostic text of the error.
    pub fn message(&self) -> (s: &'static str)
        ensures
            s@ == match *self {
                AotError::BadImage => "This image/blob is corrupt or malformed"@,
                AotError::InvalidMetaHandle => "The value for the metadata handle is invalid"@,
            },
    {
        match self {
            AotError::BadImage => "This image/blob is corrupt or malformed",
            AotError::InvalidMetaHandle => "The value for the metadata handle is invalid",
        }
    }
}

} // verus!
